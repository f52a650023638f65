use crate::text::same_text;
use vstd::prelude::*;

verus! {

/// A map from texts to values, kept as a list of entries in which no key
/// occurs twice.
pub struct TextMap<V> {
    keys: Vec<String>,
    values: Vec<V>,
}

impl<V> TextMap<V> {
    #[verifier::type_invariant]
    spec fn well_formed(self) -> bool {
        &&& self.keys.len() == self.values.len()
        &&& forall|i: int, j: int|
            0 <= i < j < self.keys.len() ==> (#[trigger] self.keys@[i])@ != (#[trigger] self.keys@[j])@
    }

    spec fn has(self, key: Seq<char>, i: int) -> bool {
        0 <= i < self.keys.len() && self.keys@[i]@ == key
    }

    spec fn place(self, key: Seq<char>) -> int {
        choose|i: int| self.has(key, i)
    }

    /// What the map holds, keyed by the characters of the keys.
    pub closed spec fn view(&self) -> Map<Seq<char>, V> {
        Map::new(
            |key: Seq<char>| exists|i: int| self.has(key, i),
            |key: Seq<char>| self.values@[self.place(key)],
        )
    }

    /// The map that holds nothing.
    pub fn new() -> (r: TextMap<V>)
        ensures
            r@ == Map::<Seq<char>, V>::empty(),
    {
        let r = TextMap { keys: Vec::new(), values: Vec::new() };
        r
    }

    fn find(&self, key: &str) -> (r: Option<usize>)
        ensures
            match r {
                Some(i) => self.has(key@, i as int),
                None => forall|i: int| !self.has(key@, i),
            },
    {
        let mut i: usize = 0;
        while i < self.keys.len()
            invariant
                i <= self.keys.len(),
                forall|k: int| 0 <= k < i ==> !self.has(key@, k),
            decreases self.keys.len() - i,
        {
            if same_text(self.keys[i].as_str(), key) {
                return Some(i);
            }
            i += 1;
        }
        None
    }

    /// The value kept under `key`, if there is one.
    pub fn get(&self, key: &str) -> (r: Option<&V>)
        ensures
            match r {
                Some(value) => self@.contains_key(key@) && *value == self@[key@],
                None => !self@.contains_key(key@),
            },
    {
        proof {
            use_type_invariant(self);
        }
        match self.find(key) {
            Some(i) => Some(&self.values[i]),
            None => None,
        }
    }

    /// Keeps `value` under `key`, in place of what was kept there before.
    pub fn insert(&mut self, key: String, value: V)
        ensures
            final(self)@ == old(self)@.insert(key@, value),
    {
        let mut taken = TextMap::new();
        std::mem::swap(self, &mut taken);
        let ghost before = taken;
        proof {
            use_type_invariant(&taken);
        }
        let found = taken.find(key.as_str());
        let TextMap { keys: mut keys, values: mut values } = taken;
        match found {
            Some(i) => {
                values.set(i, value);
            },
            None => {
                keys.push(key);
                values.push(value);
            },
        }
        proof {
            assert forall|i: int, j: int| 0 <= i < j < keys.len() implies (#[trigger] keys@[i])@ != (
            #[trigger] keys@[j])@ by {
                if j >= before.keys.len() {
                    assert(!before.has(key@, i));
                }
            }
        }
        let after = TextMap { keys, values };
        proof {
            let n = before.keys.len() as int;
            assert forall|k: Seq<char>| #[trigger]
                after@.contains_key(k) == before@.insert(key@, value).contains_key(k) by {
                if after@.contains_key(k) {
                    let j = choose|j: int| after.has(k, j);
                    if j < n {
                        assert(before.has(k, j));
                    }
                }
                if before@.contains_key(k) {
                    let j = choose|j: int| before.has(k, j);
                    assert(after.has(k, j));
                }
                if k == key@ && found is None {
                    assert(after.has(k, n));
                }
            }
            assert forall|k: Seq<char>| after@.contains_key(k) implies #[trigger] after@[k]
                == before@.insert(key@, value)[k] by {
                assert(after.has(k, after.place(k)));
                if k != key@ {
                    assert(before.has(k, before.place(k)));
                }
            }
        }
        *self = after;
    }
}

} // verus!

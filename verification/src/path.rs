use crate::text::{chars_of, pieces};
use vstd::prelude::*;
use vstd::string::*;

verus! {

/// The text after the last `/` of `path`: the whole of `path` where it holds
/// no `/`, and the empty text where `path` ends in one.
pub open spec fn final_segment(path: Seq<char>) -> Seq<char> {
    pieces(path, '/').last()
}

/// The final component of `path`, read as a path with `/` between its
/// components: the last one that is neither empty nor `.`, unless that one
/// is `..`.
pub open spec fn file_name(path: Seq<char>) -> Option<Seq<char>>
    decreases path.len(),
{
    let name = final_segment(path);
    if name.len() == 0 || name == seq!['.'] {
        if name.len() >= path.len() {
            None
        } else {
            file_name(path.take(path.len() - name.len() - 1))
        }
    } else if name == seq!['.', '.'] {
        None
    } else {
        Some(name)
    }
}

/// `segment` adjoined to `base`: a `segment` that starts at the root
/// replaces `base`; otherwise one `/` stands between the two, unless `base`
/// is empty or already ends in one.
pub open spec fn adjoined(base: Seq<char>, segment: Seq<char>) -> Seq<char> {
    if segment.len() > 0 && segment[0] == '/' {
        segment
    } else if base.len() > 0 && base.last() != '/' {
        base.push('/') + segment
    } else {
        base + segment
    }
}

/// The final segment of `path` starts right after its last `/`.
pub proof fn lemma_final_segment(path: Seq<char>, start: int)
    requires
        0 <= start <= path.len(),
        start == 0 || path[start - 1] == '/',
        forall|i: int| start <= i < path.len() ==> path[i] != '/',
    ensures
        final_segment(path) == path.subrange(start, path.len() as int),
    decreases path.len(),
{
    if path.len() > 0 && path.last() != '/' {
        let shorter = path.drop_last();
        assert(start < path.len());
        lemma_final_segment(shorter, start);
        assert(shorter.subrange(start, shorter.len() as int).push(path.last()) =~= path.subrange(
            start,
            path.len() as int,
        ));
    }
}

/// The text after the last `/` of `file_path`.
pub fn extract_filename(file_path: &str) -> (r: Option<&str>)
    ensures
        r is Some,
        r.unwrap()@ == final_segment(file_path@),
{
    let chars = chars_of(file_path);
    let end: usize = chars.len();
    let mut start: usize = end;
    while start > 0 && chars[start - 1] != '/'
        invariant
            start <= end,
            end == chars.len(),
            forall|i: int| start <= i < end ==> chars@[i] != '/',
        decreases start,
    {
        start -= 1;
    }
    proof {
        lemma_final_segment(file_path@, start as int);
    }
    Some(file_path.substring_char(start, end))
}

/// The final component of `path`, as `std::path::Path::file_name` gives it
/// for a path with `/` between its components.
pub fn get_file_name(path: &str) -> (r: Option<&str>)
    ensures
        match r {
            Some(name) => file_name(path@) == Some(name@),
            None => file_name(path@) is None,
        },
{
    let chars = chars_of(path);
    let mut end: usize = chars.len();
    assert(path@.take(end as int) =~= path@);
    loop
        invariant
            chars@ == path@,
            end <= chars.len(),
            file_name(path@) == file_name(path@.take(end as int)),
        decreases end,
    {
        let mut start: usize = end;
        while start > 0 && chars[start - 1] != '/'
            invariant
                start <= end,
                end <= chars.len(),
                forall|i: int| start <= i < end ==> chars@[i] != '/',
            decreases start,
        {
            start -= 1;
        }
        let ghost head = path@.take(end as int);
        let ghost name = head.subrange(start as int, end as int);
        proof {
            lemma_final_segment(head, start as int);
        }
        let len: usize = end - start;
        if len == 0 || (len == 1 && chars[start] == '.') {
            assert(name.len() == 0 || name =~= seq!['.']);
            if start == 0 {
                return None;
            }
            assert(head.take(head.len() - name.len() - 1) =~= path@.take(start - 1));
            end = start - 1;
        } else if len == 2 && chars[start] == '.' && chars[start + 1] == '.' {
            assert(name =~= seq!['.', '.']);
            return None;
        } else {
            assert(name != seq!['.'] && name != seq!['.', '.']) by {
                assert(seq!['.'].len() == 1 && seq!['.'][0] == '.');
                assert(seq!['.', '.'].len() == 2 && seq!['.', '.'][0] == '.' && seq!['.', '.'][1]
                    == '.');
            }
            return Some(path.substring_char(start, end));
        }
    }
}

/// `segment` adjoined to `base`, as `std::path::Path::join` does it for
/// paths with `/` between their components.
pub fn join_path(base: &str, segment: &str) -> (r: String)
    ensures
        r@ == adjoined(base@, segment@),
{
    let b = chars_of(base);
    let s = chars_of(segment);
    if s.len() > 0 && s[0] == '/' {
        return segment.to_owned();
    }
    let mut out = base.to_owned();
    if b.len() > 0 && b[b.len() - 1] != '/' {
        out.push('/');
    }
    out.append(segment);
    out
}

} // verus!

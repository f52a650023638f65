use plist::stream::Event;
use vstd::prelude::*;
use vstd::string::*;

verus! {

/// A decoded property-list value; what is inside is reached through
/// `plist::Value::as_array` and `plist::Value::as_string` only.
#[verifier::external_type_specification]
#[verifier::external_body]
pub struct ExPlistValue(plist::Value);

/// The error of a failed decode; nothing of it is read.
#[verifier::external_type_specification]
#[verifier::external_body]
pub struct ExPlistError(plist::Error);

/// A `plist::stream::Reader` over a buffer: it gives the events that it
/// finds there one after the other, one for each value, and for an array or
/// a dictionary one where it starts and one where it ends. The reader's own
/// type is bound by `std::io::Read` and `std::io::Seek` and is kept inside.
#[verifier::external_body]
pub struct EventReader<'a> {
    inner: plist::stream::Reader<std::io::Cursor<&'a [u8]>>,
}

/// One of the events that a reader finds: the start of an array or of a
/// dictionary, the end of one, a text, a run of bytes, a value of another
/// kind, or the failure to read on.
pub enum PlistEvent {
    Start,
    End,
    Text(Seq<char>),
    Data(Seq<u8>),
    Scalar,
    Failure,
}

/// What a reader of events gives next.
#[derive(Debug)]
pub enum EventStep {
    /// An array or a dictionary starts.
    Start,
    /// An array or a dictionary ends.
    End,
    /// A text.
    Text(String),
    /// A run of bytes.
    Data(Vec<u8>),
    /// A value of another kind.
    Scalar,
    /// The bytes read so far are no property list.
    Failed,
    /// No more events.
    Finished,
}

/// How deep an attribute may nest arrays and dictionaries to be decoded. A
/// decoded value is freed level by level on the stack; this many levels
/// take a small part of a stack of 2 MB.
pub const MAX_DEPTH: usize = 1024;

/// How much any attribute may hold to be decoded: one for each event, and
/// one more for each character of a text and each byte of a run of bytes. A
/// value that is referred to twice counts twice, as it is built twice, so a
/// short attribute can hold more than any memory does. A longer attribute
/// may hold more: see `work_limit`.
pub const MAX_WORK: usize = 1048576;

/// The events that `plist::stream::Reader` gives for `bytes`, up to its end
/// or to the first failure, which is then the last.
pub uninterp spec fn plist_events(bytes: Seq<u8>) -> Seq<PlistEvent>;

/// The events that `reader` has still to give, in the same terms.
pub uninterp spec fn pending_events(reader: EventReader) -> Seq<PlistEvent>;

/// The value that `plist::Value::from_reader` reads from `bytes`, if it reads one.
pub uninterp spec fn plist_decoded(bytes: Seq<u8>) -> Option<plist::Value>;

/// The items of `value` where it is an array, as `plist::Value::as_array` gives them.
pub uninterp spec fn plist_array(value: plist::Value) -> Option<Seq<plist::Value>>;

/// The text of `value` where it is a string, as `plist::Value::as_string` gives it.
pub uninterp spec fn plist_string(value: plist::Value) -> Option<Seq<char>>;

/// `plist::Value::as_array` hands out the items of an array and `None` for
/// every other kind of value.
pub assume_specification[ plist::Value::as_array ](value: &plist::Value) -> (r: Option<
    &Vec<plist::Value>,
>)
    ensures
        plist_array(*value) == match r {
            Some(items) => Some(items@),
            None => None,
        },
;

/// `plist::Value::as_string` hands out the text of a string and `None` for
/// every other kind of value.
pub assume_specification[ plist::Value::as_string ](value: &plist::Value) -> (r: Option<&str>)
    ensures
        plist_string(*value) == match r {
            Some(text) => Some(text@),
            None => None,
        },
;

/// `plist::stream::Reader::new` on a cursor over `bytes`: the reader has
/// looked at nothing yet, and what it will give depends on the bytes alone.
#[verifier::external_body]
fn open_events(bytes: &[u8]) -> (r: EventReader)
    ensures
        pending_events(r) == plist_events(bytes@),
{
    EventReader { inner: plist::stream::Reader::new(std::io::Cursor::new(bytes)) }
}

/// The event that a step stands for; a step that gives none stands for the
/// failure.
pub open spec fn event_of(step: EventStep) -> PlistEvent {
    match step {
        EventStep::Start => PlistEvent::Start,
        EventStep::End => PlistEvent::End,
        EventStep::Text(text) => PlistEvent::Text(text@),
        EventStep::Data(data) => PlistEvent::Data(data@),
        EventStep::Scalar => PlistEvent::Scalar,
        EventStep::Failed => PlistEvent::Failure,
        EventStep::Finished => PlistEvent::Failure,
    }
}

/// `Iterator::next` of `plist::stream::Reader`: the next event, with the
/// text or the bytes it carries, the failure to read one, or the end.
/// Nothing is said of the reader after a failure or after the end.
#[verifier::external_body]
fn next_event(reader: &mut EventReader) -> (r: EventStep)
    ensures
        match r {
            EventStep::Finished => pending_events(*old(reader)).len() == 0,
            EventStep::Failed => pending_events(*old(reader)) == seq![PlistEvent::Failure],
            _ => pending_events(*old(reader)).len() > 0 && pending_events(*old(reader))[0]
                == event_of(r) && pending_events(*final(reader)) == pending_events(
                *old(reader),
            ).drop_first(),
        },
{
    match reader.inner.next() {
        None => EventStep::Finished,
        Some(Err(_)) => EventStep::Failed,
        Some(Ok(Event::StartArray(_))) => EventStep::Start,
        Some(Ok(Event::StartDictionary(_))) => EventStep::Start,
        Some(Ok(Event::EndCollection)) => EventStep::End,
        Some(Ok(Event::String(text))) => EventStep::Text(text.into_owned()),
        Some(Ok(Event::Data(data))) => EventStep::Data(data.into_owned()),
        Some(Ok(_)) => EventStep::Scalar,
    }
}

/// `plist::Value::from_reader` on a cursor over `bytes`: the value it reads
/// depends on the bytes alone, and bytes that are no property list give an
/// error. It builds the value from the events of a `plist::stream::Reader`
/// over the same bytes and stops at the first failure. It sets no limit of
/// its own: it nests a value for every array and dictionary that the events
/// start, a value that is referred to twice is built twice, and a nested
/// value is freed by recursion. Bytes that hold more than memory does, or
/// nest deeper than the stack does, end the program, in the call or where
/// the value is dropped. The bounds on the events keep both far away.
#[verifier::external_body]
fn read_plist(bytes: &[u8]) -> (r: Result<plist::Value, plist::Error>)
    requires
        within_limits(plist_events(bytes@), bytes@.len()),
    ensures
        plist_decoded(bytes@) == match r {
            Ok(value) => Some(value),
            Err(_) => None,
        },
{
    plist::Value::from_reader(std::io::Cursor::new(bytes))
}

/// What one event counts for: one, and one more for each character or byte
/// that it carries.
pub open spec fn event_work(event: PlistEvent) -> nat {
    match event {
        PlistEvent::Text(text) => 1 + text.len(),
        PlistEvent::Data(data) => 1 + data.len(),
        _ => 1,
    }
}

/// What `events` count for together.
pub open spec fn work(events: Seq<PlistEvent>) -> nat
    decreases events.len(),
{
    if events.len() == 0 {
        0
    } else {
        work(events.drop_last()) + event_work(events.last())
    }
}

/// How many arrays and dictionaries are open after `events`.
pub open spec fn depth(events: Seq<PlistEvent>) -> int
    decreases events.len(),
{
    if events.len() == 0 {
        0
    } else {
        depth(events.drop_last()) + match events.last() {
            PlistEvent::Start => 1int,
            PlistEvent::End => -1int,
            _ => 0int,
        }
    }
}

/// How much `length` bytes may hold to be decoded: two for each byte and two
/// more, which is what bytes hold that refer to nothing twice, and no less
/// than `MAX_WORK`.
pub open spec fn work_limit(length: nat) -> nat {
    if 2 * length + 2 > usize::MAX {
        usize::MAX as nat
    } else if 2 * length + 2 > MAX_WORK {
        2 * length + 2
    } else {
        MAX_WORK as nat
    }
}

/// Whether `events`, read from `length` bytes, hold no more than is decoded,
/// and at no point nest deeper.
pub open spec fn within_limits(events: Seq<PlistEvent>, length: nat) -> bool {
    &&& work(events) <= work_limit(length)
    &&& forall|n: int| 0 <= n <= events.len() ==> #[trigger] depth(events.take(n)) <= MAX_DEPTH
}

/// More events never count for less.
pub proof fn lemma_work_grows(events: Seq<PlistEvent>, n: int)
    requires
        0 <= n <= events.len(),
    ensures
        work(events.take(n)) <= work(events),
    decreases events.len() - n,
{
    if n < events.len() {
        lemma_work_grows(events, n + 1);
        assert(events.take(n + 1).drop_last() =~= events.take(n));
    } else {
        assert(events.take(n) =~= events);
    }
}

/// One item of a decoded array, as far as the provenance is read from it.
#[derive(Debug)]
pub enum PropertyItem {
    Text(String),
    Other,
}

/// A decoded property list, as far as the provenance is read from it.
#[derive(Debug)]
pub enum PropertyList {
    Array(Vec<PropertyItem>),
    Other,
}

/// An item with its text as plain characters.
pub enum PropertyItemView {
    Text(Seq<char>),
    Other,
}

/// A decoded list with its items as plain values.
pub enum PropertyListView {
    Array(Seq<PropertyItemView>),
    Other,
}

impl View for PropertyItem {
    type V = PropertyItemView;

    open spec fn view(&self) -> PropertyItemView {
        match self {
            PropertyItem::Text(text) => PropertyItemView::Text(text@),
            PropertyItem::Other => PropertyItemView::Other,
        }
    }
}

impl DeepView for PropertyItem {
    type V = PropertyItemView;

    open spec fn deep_view(&self) -> PropertyItemView {
        self@
    }
}

impl View for PropertyList {
    type V = PropertyListView;

    open spec fn view(&self) -> PropertyListView {
        match self {
            PropertyList::Array(items) => PropertyListView::Array(items.deep_view()),
            PropertyList::Other => PropertyListView::Other,
        }
    }
}

/// Why no provenance could be read.
#[derive(Debug, Clone, Copy, PartialEq, Eq, Structural)]
pub enum DecodeError {
    /// The bytes are no property list.
    Malformed,
    /// The bytes hold more, or nest deeper, than is decoded.
    TooLarge,
}

/// What the provenance reads of one decoded item.
pub open spec fn item_shape(value: plist::Value) -> PropertyItemView {
    match plist_string(value) {
        Some(text) => PropertyItemView::Text(text),
        None => PropertyItemView::Other,
    }
}

/// What the provenance reads of a decoded value.
pub open spec fn shape(value: plist::Value) -> PropertyListView {
    match plist_array(value) {
        Some(items) => PropertyListView::Array(items.map_values(|item: plist::Value| item_shape(item))),
        None => PropertyListView::Other,
    }
}

/// The first text among `items`.
pub open spec fn first_text(items: Seq<PropertyItemView>) -> Option<Seq<char>>
    decreases items.len(),
{
    if items.len() == 0 {
        None
    } else {
        match items[0] {
            PropertyItemView::Text(text) => Some(text),
            PropertyItemView::Other => first_text(items.drop_first()),
        }
    }
}

/// The origin that a decoded list records: the first text of an array.
pub open spec fn origin_of(list: PropertyListView) -> Option<Seq<char>> {
    match list {
        PropertyListView::Array(items) => first_text(items),
        PropertyListView::Other => None,
    }
}

/// What decoding `bytes` gives: what the bytes hold, if they are a property
/// list and hold no more, and nest no deeper, than is decoded.
pub open spec fn decoded(bytes: Seq<u8>) -> Result<PropertyListView, DecodeError> {
    if !within_limits(plist_events(bytes), bytes.len()) {
        Err(DecodeError::TooLarge)
    } else {
        match plist_decoded(bytes) {
            Some(value) => Ok(shape(value)),
            None => Err(DecodeError::Malformed),
        }
    }
}

/// The first text of `items` is the first item that is a text: none before
/// it is one.
pub proof fn lemma_first_text(items: Seq<PropertyItemView>, at: int)
    requires
        0 <= at <= items.len(),
        forall|i: int| 0 <= i < at ==> items[i] is Other,
    ensures
        first_text(items) == first_text(items.skip(at)),
    decreases at,
{
    if at > 0 {
        let rest = items.drop_first();
        assert(forall|i: int| 0 <= i < at - 1 ==> rest[i] == items[i + 1]);
        lemma_first_text(rest, at - 1);
        assert(rest.skip(at - 1) =~= items.skip(at));
    } else {
        assert(items.skip(0) =~= items);
    }
}

/// What the provenance reads of `value`.
pub fn property_list(value: &plist::Value) -> (r: PropertyList)
    ensures
        r@ == shape(*value),
{
    match value.as_array() {
        Some(items) => {
            let mut out: Vec<PropertyItem> = Vec::new();
            let mut i: usize = 0;
            while i < items.len()
                invariant
                    i <= items.len(),
                    out.len() == i,
                    forall|k: int| 0 <= k < i ==> (#[trigger] out@[k])@ == item_shape(items@[k]),
                decreases items.len() - i,
            {
                let item = match items[i].as_string() {
                    Some(text) => PropertyItem::Text(text.to_owned()),
                    None => PropertyItem::Other,
                };
                out.push(item);
                i += 1;
            }
            assert(out.deep_view() =~= items@.map_values(|item: plist::Value| item_shape(item)));
            PropertyList::Array(out)
        },
        None => PropertyList::Other,
    }
}

/// The origin that `list` records: the first text of an array, and `None`
/// where the list is no array or holds no text.
pub fn origin_url(list: &PropertyList) -> (r: Option<String>)
    ensures
        match r {
            Some(url) => origin_of(list@) == Some(url@),
            None => origin_of(list@) is None,
        },
{
    match list {
        PropertyList::Array(items) => {
            let mut i: usize = 0;
            while i < items.len()
                invariant
                    i <= items.len(),
                    list@ == PropertyListView::Array(items.deep_view()),
                    forall|k: int| 0 <= k < i ==> items.deep_view()[k] is Other,
                decreases items.len() - i,
            {
                match &items[i] {
                    PropertyItem::Text(text) => {
                        proof {
                            lemma_first_text(items.deep_view(), i as int);
                        }
                        return Some(text.clone());
                    },
                    PropertyItem::Other => {},
                }
                i += 1;
            }
            proof {
                lemma_first_text(items.deep_view(), i as int);
            }
            None
        },
        PropertyList::Other => None,
    }
}

/// Whether `bytes` hold no more than is decoded, and nest no deeper. The
/// events are read one by one, and no further than to the first that goes
/// beyond a limit; no value is built from them.
pub fn within_events(bytes: &[u8]) -> (r: bool)
    ensures
        r == within_limits(plist_events(bytes@), bytes@.len()),
{
    let ghost all = plist_events(bytes@);
    let limit: usize = if bytes.len() > (usize::MAX - 2) / 2 {
        usize::MAX
    } else if 2 * bytes.len() + 2 > MAX_WORK {
        2 * bytes.len() + 2
    } else {
        MAX_WORK
    };
    let mut reader = open_events(bytes);
    let ghost mut done: Seq<PlistEvent> = Seq::empty();
    let mut spent: usize = 0;
    let mut open: usize = 0;
    let mut closed: usize = 0;
    assert(done + pending_events(reader) =~= all);
    loop
        invariant
            all == plist_events(bytes@),
            all == done + pending_events(reader),
            spent == work(done),
            limit == work_limit(bytes@.len()),
            spent <= limit,
            open <= spent,
            closed <= spent,
            open - closed == depth(done),
            forall|n: int| 0 <= n <= done.len() ==> #[trigger] depth(done.take(n)) <= MAX_DEPTH,
        decreases limit - spent,
    {
        let ghost pending = pending_events(reader);
        let step = next_event(&mut reader);
        let ghost longer = done.push(event_of(step));
        proof {
            assert(longer.drop_last() =~= done);
            if !(step is Finished) {
                assert(all.take(longer.len() as int) =~= longer);
                lemma_work_grows(all, longer.len() as int);
                assert(done + pending =~= longer + pending.drop_first());
            }
        }
        let size: usize = match &step {
            EventStep::Finished => {
                assert(all =~= done);
                return true;
            },
            EventStep::Failed => {
                assert(all =~= longer);
                assert forall|n: int| 0 <= n <= longer.len() implies #[trigger] depth(
                    longer.take(n),
                ) <= MAX_DEPTH by {
                    if n == longer.len() {
                        assert(longer.take(n) =~= longer);
                        assert(done.take(done.len() as int) =~= done);
                    } else {
                        assert(longer.take(n) =~= done.take(n));
                    }
                }
                return spent < limit;
            },
            EventStep::Text(text) => text.as_str().unicode_len(),
            EventStep::Data(data) => data.len(),
            _ => 0,
        };
        if size >= limit - spent {
            return false;
        }
        spent = spent + size + 1;
        match &step {
            EventStep::Start => {
                open = open + 1;
            },
            EventStep::End => {
                closed = closed + 1;
            },
            _ => {},
        }
        proof {
            done = longer;
        }
        if open > closed && open - closed > MAX_DEPTH {
            assert(depth(all.take(done.len() as int)) > MAX_DEPTH);
            return false;
        }
        assert forall|n: int| 0 <= n <= done.len() implies #[trigger] depth(done.take(n))
            <= MAX_DEPTH by {
            if n == done.len() {
                assert(done.take(n) =~= done);
            } else {
                assert(done.take(n) =~= done.drop_last().take(n));
            }
        }
    }
}

/// Decodes `bytes` as a property list. Bytes that hold more than their
/// `work_limit` or nest deeper than `MAX_DEPTH` give `DecodeError::TooLarge`;
/// bytes that are no property list give `DecodeError::Malformed`.
pub fn decode(bytes: &[u8]) -> (r: Result<PropertyList, DecodeError>)
    ensures
        match r {
            Ok(list) => decoded(bytes@) == Ok::<PropertyListView, DecodeError>(list@),
            Err(e) => decoded(bytes@) == Err::<PropertyListView, DecodeError>(e),
        },
        r is Err <==> !within_limits(plist_events(bytes@), bytes@.len()) || plist_decoded(bytes@)
            is None,
{
    if !within_events(bytes) {
        return Err(DecodeError::TooLarge);
    }
    match read_plist(bytes) {
        Ok(value) => Ok(property_list(&value)),
        Err(_) => Err(DecodeError::Malformed),
    }
}

} // verus!

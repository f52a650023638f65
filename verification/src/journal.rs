use crate::text::{chars_of, has_char, pieces, string_of};
use vstd::prelude::*;
use vstd::string::*;

verus! {

/// Why a record was not appended.
#[derive(Debug, Clone, Copy, PartialEq, Eq, Structural)]
pub enum JournalError {
    /// The record holds a line feed, or ends in a carriage return: on its
    /// own line it would not be read back as it is.
    Unframable,
}

/// Whether `record` can stand on one line of the journal and be read back
/// unchanged.
pub open spec fn is_record(record: Seq<char>) -> bool {
    &&& !record.contains('\n')
    &&& record.len() == 0 || record.last() != '\r'
}

/// A record as the journal holds it: on a line of its own.
pub open spec fn framed(record: Seq<char>) -> Seq<char> {
    record.push('\n')
}

/// A line without the carriage return that may end it.
pub open spec fn without_return(line: Seq<char>) -> Seq<char> {
    if line.len() > 0 && line.last() == '\r' {
        line.drop_last()
    } else {
        line
    }
}

/// The lines of `text`, without their line ends. Each line feed ends a line,
/// and with it goes a carriage return right before it; what follows the
/// last line feed is a line too, as it stands, unless it is empty.
pub open spec fn lines(text: Seq<char>) -> Seq<Seq<char>> {
    let parts = pieces(text, '\n');
    let ended = parts.drop_last().map_values(|line: Seq<char>| without_return(line));
    if parts.last().len() == 0 {
        ended
    } else {
        ended.push(parts.last())
    }
}

/// Whether every line of `text` is ended by a line feed.
pub open spec fn complete(text: Seq<char>) -> bool {
    text.len() == 0 || text.last() == '\n'
}

/// The text of a journal to which `records` were appended in turn, starting
/// from `text`.
pub open spec fn appended(text: Seq<char>, records: Seq<Seq<char>>) -> Seq<char>
    decreases records.len(),
{
    if records.len() == 0 {
        text
    } else {
        appended(text, records.drop_last()) + framed(records.last())
    }
}

/// Text that holds no separator goes into the piece that is still open.
proof fn lemma_pieces_extend(text: Seq<char>, more: Seq<char>, sep: char)
    requires
        !more.contains(sep),
    ensures
        pieces(text + more, sep) == pieces(text, sep).drop_last().push(
            pieces(text, sep).last() + more,
        ),
    decreases more.len(),
{
    crate::text::lemma_pieces(text, sep);
    let before = pieces(text, sep);
    if more.len() == 0 {
        assert(text + more =~= text);
        assert(before.drop_last().push(before.last() + more) =~= before);
    } else {
        let shorter = more.drop_last();
        assert(!shorter.contains(sep)) by {
            assert(forall|k: int| 0 <= k < shorter.len() ==> shorter[k] == more[k]);
        }
        lemma_pieces_extend(text, shorter, sep);
        assert((text + more).drop_last() =~= text + shorter);
        assert((before.last() + shorter).push(more.last()) =~= before.last() + more);
        assert(before.drop_last().push(before.last() + shorter).drop_last() =~= before.drop_last());
    }
}

/// Appending one record to a journal whose lines are all ended adds that
/// record, unchanged, after the lines that were there.
pub proof fn lemma_append(text: Seq<char>, record: Seq<char>)
    requires
        complete(text),
        is_record(record),
    ensures
        complete(text + framed(record)),
        lines(text + framed(record)) == lines(text).push(record),
{
    let before = pieces(text, '\n');
    let strip = |line: Seq<char>| without_return(line);
    crate::text::lemma_pieces(text, '\n');
    lemma_pieces_extend(text, record, '\n');
    assert((text + framed(record)).drop_last() =~= text + record);
    assert(before.last() + record =~= record);
    let held = before.drop_last().push(record);
    assert(pieces(text + framed(record), '\n') == held.push(Seq::<char>::empty()));
    assert(held.push(Seq::<char>::empty()).drop_last() =~= held);
    assert(held.map_values(strip) =~= before.drop_last().map_values(strip).push(record));
}

/// Records that were appended are read back as they were and in their order:
/// draining right after appending `records` to an empty journal gives
/// `records`.
pub proof fn lemma_round_trip(records: Seq<Seq<char>>)
    requires
        forall|i: int| 0 <= i < records.len() ==> is_record(#[trigger] records[i]),
    ensures
        complete(appended(Seq::<char>::empty(), records)),
        lines(appended(Seq::<char>::empty(), records)) == records,
    decreases records.len(),
{
    if records.len() == 0 {
        lemma_cleared_is_empty();
    } else {
        let earlier = records.drop_last();
        assert(forall|i: int| 0 <= i < earlier.len() ==> earlier[i] == records[i]);
        lemma_round_trip(earlier);
        lemma_append(appended(Seq::<char>::empty(), earlier), records.last());
        assert(earlier.push(records.last()) =~= records);
    }
}

/// A journal that was cleared holds no line: draining it gives nothing.
pub proof fn lemma_cleared_is_empty()
    ensures
        lines(Seq::<char>::empty()) == Seq::<Seq<char>>::empty(),
        complete(Seq::<char>::empty()),
{
    assert(pieces(Seq::<char>::empty(), '\n') =~= seq![Seq::<char>::empty()]);
    assert(lines(Seq::<char>::empty()) =~= Seq::<Seq<char>>::empty());
}

/// The line that holds `record`, or why the record cannot stand on a line.
pub fn frame(record: &str) -> (r: Result<String, JournalError>)
    ensures
        match r {
            Ok(line) => is_record(record@) && line@ == framed(record@),
            Err(e) => !is_record(record@) && e == JournalError::Unframable,
        },
{
    let chars = chars_of(record);
    if has_char(record, '\n') {
        return Err(JournalError::Unframable);
    }
    if chars.len() > 0 && chars[chars.len() - 1] == '\r' {
        return Err(JournalError::Unframable);
    }
    let mut line = record.to_owned();
    line.push('\n');
    Ok(line)
}

/// The journal: the text of the file that holds it.
pub struct Journal {
    text: String,
}

impl Journal {
    /// The text of the journal.
    pub closed spec fn content(&self) -> Seq<char> {
        self.text@
    }

    /// The records of the journal, in the order in which they were appended.
    pub open spec fn view(&self) -> Seq<Seq<char>> {
        lines(self.content())
    }

    /// The journal that holds nothing.
    pub fn new() -> (r: Journal)
        ensures
            r.content() == Seq::<char>::empty(),
            r@ == Seq::<Seq<char>>::empty(),
    {
        proof {
            lemma_cleared_is_empty();
        }
        Journal { text: String::new() }
    }

    /// The journal whose file holds `text`.
    pub fn load(text: String) -> (r: Journal)
        ensures
            r.content() == text@,
    {
        Journal { text }
    }

    /// The text to keep in the journal's file.
    pub fn text(&self) -> (r: &String)
        ensures
            r@ == self.content(),
    {
        &self.text
    }

    /// Appends `record` on a line of its own. A record that cannot stand on
    /// one line is refused and the journal stays as it is.
    pub fn append(&mut self, record: &str) -> (r: Result<(), JournalError>)
        ensures
            match r {
                Ok(_) => is_record(record@),
                Err(e) => !is_record(record@) && e == JournalError::Unframable,
            },
            r is Ok ==> final(self).content() == old(self).content() + framed(record@),
            r is Ok ==> complete(final(self).content()),
            r is Ok && complete(old(self).content()) ==> final(self)@ == old(self)@.push(record@),
            r is Err ==> final(self).content() == old(self).content(),
    {
        match frame(record) {
            Ok(line) => {
                proof {
                    if complete(self.content()) {
                        lemma_append(self.content(), record@);
                    }
                }
                self.text.append(line.as_str());
                Ok(())
            },
            Err(e) => Err(e),
        }
    }

    /// Every record of the journal, in order.
    pub fn drain(&self) -> (r: Vec<String>)
        ensures
            r.deep_view() == self@,
    {
        split_lines(self.text.as_str())
    }

    /// Empties the journal.
    pub fn clear(&mut self)
        ensures
            final(self).content() == Seq::<char>::empty(),
            final(self)@ == Seq::<Seq<char>>::empty(),
    {
        proof {
            lemma_cleared_is_empty();
        }
        self.text = String::new();
    }
}

/// The lines of `text`, without their line ends.
pub fn split_lines(text: &str) -> (r: Vec<String>)
    ensures
        r.deep_view() == lines(text@),
{
    let mut out: Vec<String> = Vec::new();
    let mut line: Vec<char> = Vec::new();
    let ghost strip = |line: Seq<char>| without_return(line);
    for c in it: text.chars()
        invariant
            it.seq() == text@,
            strip == (|line: Seq<char>| without_return(line)),
            out.deep_view() == pieces(text@.take(it.index()), '\n').drop_last().map_values(strip),
            line@ == pieces(text@.take(it.index()), '\n').last(),
    {
        let ghost before = pieces(text@.take(it.index()), '\n');
        proof {
            assert(text@.take(it.index() + 1).drop_last() =~= text@.take(it.index()));
            crate::text::lemma_pieces(text@.take(it.index()), '\n');
        }
        if c == '\n' {
            if line.len() > 0 && line[line.len() - 1] == '\r' {
                line.pop();
            }
            let ghost held = out.deep_view();
            out.push(string_of(&line));
            line = Vec::new();
            proof {
                assert(before.push(Seq::<char>::empty()).drop_last() =~= before);
                assert(out.deep_view() =~= held.push(without_return(before.last())));
                assert(before.map_values(strip) =~= before.drop_last().map_values(strip).push(
                    without_return(before.last()),
                ));
            }
        } else {
            line.push(c);
            proof {
                assert(before.drop_last().push(before.last().push(c)).drop_last()
                    =~= before.drop_last());
            }
        }
    }
    assert(text@.take(text@.len() as int) =~= text@);
    if line.len() > 0 {
        let ghost held = out.deep_view();
        out.push(string_of(&line));
        assert(out.deep_view() =~= held.push(line@));
    }
    out
}

} // verus!

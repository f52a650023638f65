use nimbus::journal::{frame, split_lines, Journal, JournalError};
use std::io::BufRead;

#[test]
fn frame_puts_a_record_on_a_line() {
    assert_eq!(frame("{\"command\":\"Move\"}"), Ok("{\"command\":\"Move\"}\n".to_string()));
    assert_eq!(frame(""), Ok("\n".to_string()));
}

#[test]
fn frame_refuses_what_would_not_be_read_back() {
    assert_eq!(frame("two\nlines"), Err(JournalError::Unframable));
    assert_eq!(frame("trailing\n"), Err(JournalError::Unframable));
    assert_eq!(frame("return\r"), Err(JournalError::Unframable));
    assert_eq!(frame("in\rside"), Ok("in\rside\n".to_string()));
}

#[test]
fn split_lines_agrees_with_std() {
    let texts = [
        "", "\n", "a", "a\n", "a\nb", "a\nb\n", "\n\n", "a\r\n", "a\r\nb\r\n", "a\r", "\r\n", "\r", "a\r\r\n",
        "a\n\nb", "{\"x\":1}\n{\"y\":2}\n{\"torn", "é\nü\n",
    ];
    for text in texts {
        let expected: Vec<String> = std::io::Cursor::new(text.as_bytes()).lines().map(|l| l.unwrap()).collect();
        assert_eq!(split_lines(text), expected, "{:?}", text);
    }
}

#[test]
fn what_was_appended_is_drained_in_order() {
    let records = ["{\"file_path\":\"/a\"}", "", "second record", "{\"file_path\":null}", "last"];
    let mut journal = Journal::new();
    for record in records {
        assert_eq!(journal.append(record), Ok(()));
    }
    let drained = journal.drain();
    assert_eq!(drained, records.iter().map(|r| r.to_string()).collect::<Vec<String>>());
    assert_eq!(journal.text(), "{\"file_path\":\"/a\"}\n\nsecond record\n{\"file_path\":null}\nlast\n");
}

#[test]
fn a_refused_record_changes_nothing() {
    let mut journal = Journal::new();
    assert_eq!(journal.append("first"), Ok(()));
    assert_eq!(journal.append("bro\nken"), Err(JournalError::Unframable));
    assert_eq!(journal.text(), "first\n");
    assert_eq!(journal.drain(), vec!["first".to_string()]);
}

#[test]
fn a_cleared_journal_drains_empty() {
    let mut journal = Journal::new();
    journal.append("one").unwrap();
    journal.append("two").unwrap();
    assert_eq!(journal.drain().len(), 2);
    journal.clear();
    assert_eq!(journal.text(), "");
    assert!(journal.drain().is_empty());
}

#[test]
fn a_new_journal_is_empty() {
    let journal = Journal::new();
    assert_eq!(journal.text(), "");
    assert!(journal.drain().is_empty());
}

#[test]
fn a_loaded_journal_drains_its_lines() {
    let journal = Journal::load("one\ntwo\r\nthree".to_string());
    assert_eq!(journal.drain(), vec!["one".to_string(), "two".to_string(), "three".to_string()]);
}

#[test]
fn a_torn_line_takes_the_next_record_with_it() {
    let mut journal = Journal::load("whole\n{\"torn".to_string());
    journal.append("{\"next\":1}").unwrap();
    assert_eq!(journal.drain(), vec!["whole".to_string(), "{\"torn{\"next\":1}".to_string()]);
}

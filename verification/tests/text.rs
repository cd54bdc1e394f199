use octyl::buffer::{TextBuffer, TextBufferState};
use octyl::document::{Cursor, Document};
use octyl::logger::LogStore;

#[test]
fn text_buffer_never_empty() {
    let buf = TextBuffer::new(vec![]);
    assert_eq!(buf.lines, vec!["".to_string()]);
    assert_eq!(buf.text(), "");
}

#[test]
fn text_buffer_insert_char() {
    let mut buf = TextBuffer::new(vec!["held".to_string()]);
    buf.insert_char((3, 0), 'l');
    assert_eq!(buf.lines, vec!["helld".to_string()]);
    assert_eq!(buf.text(), "helld");
}

#[test]
fn text_buffer_delete_char() {
    let mut buf = TextBuffer::new(vec!["world".to_string()]);
    buf.delete_char((1, 0));
    assert_eq!(buf.text(), "wrld");

    // deleting at or past the end of the line changes nothing
    buf.delete_char((4, 0));
    assert_eq!(buf.text(), "wrld");
}

#[test]
fn text_buffer_insert_newline() {
    let mut buf = TextBuffer::new(vec!["hello world".to_string()]);
    buf.insert_newline((5, 0));
    assert_eq!(
        buf.lines,
        vec!["hello".to_string(), " world".to_string()]
    );
    assert_eq!(buf.text(), "hello\n world");
}

#[test]
fn text_buffer_state_default() {
    let state = TextBufferState::default();
    assert_eq!(state.scroll, 0);
    assert!(!state.wrap);
}

#[test]
fn document_edits_at_cursor() {
    let mut doc = Document::new();
    assert_eq!(doc.cursor_coords(), (0, 0));

    // the cursor stays put on insert, so each insert lands at column 0
    doc.insert_char('h');
    doc.insert_char('i');
    assert_eq!(doc.buf.text(), "ih");

    doc.delete_char();
    assert_eq!(doc.buf.text(), "h");
}

#[test]
fn document_split_line() {
    let mut doc = Document::from_lines(vec!["abcd".to_string()]);
    doc.insert_char('x');
    assert_eq!(doc.buf.text(), "xabcd");
    doc.insert_newline();
    assert_eq!(doc.buf.text(), "\nxabcd");
    assert_eq!(doc.cursor_coords(), (0, 1));
}

#[test]
fn cursor_starts_at_origin() {
    let c = Cursor::new();
    assert_eq!((c.x, c.y), (0, 0));
}

#[test]
fn log_store_keeps_newest_first() {
    let mut log = LogStore::new();
    assert_eq!(log.len(), 0);
    log.record("first".to_string());
    log.record("second".to_string());
    assert_eq!(log.len(), 2);
    assert_eq!(
        log.lines(),
        vec!["second".to_string(), "first".to_string()]
    );
}

#[test]
fn log_store_drops_oldest_beyond_capacity() {
    let mut log = LogStore::new();
    for i in 0..30 {
        log.record(format!("line {}", i));
    }
    assert_eq!(log.len(), 25);
    let lines = log.lines();
    assert_eq!(lines[0], "line 29");
    assert_eq!(lines[24], "line 5");
}

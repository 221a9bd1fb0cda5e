use digit_core::buffer::{EditError, FileBuffer};
use digit_core::change::ChangeKind;

#[test]
fn new_filebuffer_is_empty() {
    let x = FileBuffer::new();
    assert_eq!(x.history_len(), 0);
}

#[test]
fn new_buffer_has_no_text_and_nothing_to_undo() {
    let mut b = FileBuffer::new();
    assert_eq!(b.text(), "");
    assert_eq!(b.len(), 0);
    assert_eq!(b.history_position(), 0);
    assert_eq!(b.undo(), Err(EditError::NothingToUndo));
    assert_eq!(b.redo(), Err(EditError::NothingToRedo));
}

#[test]
fn insert_delete_undo_scenario() {
    let mut b = FileBuffer::new();
    assert_eq!(b.insert(0, "hello"), Ok(()));
    assert_eq!(b.text(), "hello");
    assert_eq!(b.history_len(), 1);
    assert_eq!(b.delete(1, 3), Ok("el".to_string()));
    assert_eq!(b.text(), "hlo");
    assert_eq!(b.undo(), Ok(()));
    assert_eq!(b.text(), "hello");
    assert_eq!(b.undo(), Ok(()));
    assert_eq!(b.text(), "");
    assert_eq!(b.undo(), Err(EditError::NothingToUndo));
}

#[test]
fn from_str_logs_one_insert() {
    let b = FileBuffer::from_str("abc");
    assert_eq!(b.text(), "abc");
    assert_eq!(b.len(), 3);
    assert_eq!(b.history_len(), 1);
    assert_eq!(b.history_position(), 1);
    let c = b.change(0);
    assert_eq!(c.kind, ChangeKind::Insert);
    assert_eq!((c.start, c.end), (0, 3));
    assert_eq!(c.payload, "abc");
}

#[test]
fn insert_past_end_is_refused_and_changes_nothing() {
    let mut b = FileBuffer::from_str("ab");
    assert_eq!(b.insert(3, "x"), Err(EditError::OutOfBounds));
    assert_eq!(b.text(), "ab");
    assert_eq!(b.history_len(), 1);
    assert_eq!(b.history_position(), 1);
}

#[test]
fn insert_at_end_and_middle() {
    let mut b = FileBuffer::from_str("ac");
    assert_eq!(b.insert(2, "d"), Ok(()));
    assert_eq!(b.insert(1, "b"), Ok(()));
    assert_eq!(b.text(), "abcd");
    let c = b.change(2);
    assert_eq!(c.kind, ChangeKind::Insert);
    assert_eq!((c.start, c.end), (1, 2));
}

#[test]
fn delete_out_of_bounds_or_reversed() {
    let mut b = FileBuffer::from_str("abc");
    assert_eq!(b.delete(1, 4), Err(EditError::OutOfBounds));
    assert_eq!(b.delete(2, 1), Err(EditError::OutOfBounds));
    assert_eq!(b.text(), "abc");
    assert_eq!(b.history_len(), 1);
}

#[test]
fn delete_records_removed_text() {
    let mut b = FileBuffer::from_str("abcdef");
    assert_eq!(b.delete(2, 5), Ok("cde".to_string()));
    assert_eq!(b.text(), "abf");
    let c = b.change(1);
    assert_eq!(c.kind, ChangeKind::Delete);
    assert_eq!((c.start, c.end), (2, 5));
    assert_eq!(c.payload, "cde");
}

#[test]
fn replace_is_one_undoable_edit() {
    let mut b = FileBuffer::from_str("Hi Mike!");
    assert_eq!(b.replace(3, 7, "Duane"), Ok(()));
    assert_eq!(b.text(), "Hi Duane!");
    assert_eq!(b.history_len(), 2);
    let c = b.change(1);
    assert_eq!(c.kind, ChangeKind::Replace);
    assert_eq!(c.payload, "Duane");
    assert_eq!(c.replaced, "Mike");
    assert_eq!(b.undo(), Ok(()));
    assert_eq!(b.text(), "Hi Mike!");
    assert_eq!(b.redo(), Ok(()));
    assert_eq!(b.text(), "Hi Duane!");
}

#[test]
fn replace_out_of_bounds() {
    let mut b = FileBuffer::from_str("abc");
    assert_eq!(b.replace(2, 9, "x"), Err(EditError::OutOfBounds));
    assert_eq!(b.text(), "abc");
}

#[test]
fn undo_then_redo_restores_text_and_position() {
    let mut b = FileBuffer::new();
    b.insert(0, "one").unwrap();
    b.insert(3, " two").unwrap();
    let before = (b.text(), b.history_position());
    assert_eq!(b.undo(), Ok(()));
    assert_eq!(b.text(), "one");
    assert_eq!(b.redo(), Ok(()));
    assert_eq!((b.text(), b.history_position()), before);
}

#[test]
fn redo_after_fresh_edit_fails() {
    let mut b = FileBuffer::new();
    b.insert(0, "x").unwrap();
    assert_eq!(b.redo(), Err(EditError::NothingToRedo));
}

#[test]
fn edit_after_undo_discards_redo_branch() {
    let mut b = FileBuffer::new();
    b.insert(0, "a").unwrap();
    b.insert(1, "b").unwrap();
    b.insert(2, "c").unwrap();
    b.undo().unwrap();
    b.undo().unwrap();
    assert_eq!(b.history_len(), 3);
    assert_eq!(b.history_position(), 1);
    b.insert(1, "z").unwrap();
    assert_eq!(b.text(), "az");
    assert_eq!(b.history_len(), 2);
    assert_eq!(b.change(1).payload, "z");
    assert_eq!(b.redo(), Err(EditError::NothingToRedo));
}

#[test]
fn replaying_history_gives_text() {
    let mut b = FileBuffer::new();
    b.insert(0, "hello world").unwrap();
    b.replace(0, 5, "HELLO").unwrap();
    b.delete(5, 11).unwrap();
    b.insert(5, "!").unwrap();
    b.undo().unwrap();
    let mut replayed = FileBuffer::new();
    for i in 0..b.history_position() {
        let c = b.change(i);
        let r = match c.kind {
            ChangeKind::Insert => replayed.insert(c.start, &c.payload),
            ChangeKind::Delete => replayed.delete(c.start, c.end).map(|_| ()),
            ChangeKind::Replace => replayed.replace(c.start, c.end, &c.payload),
            _ => Ok(()),
        };
        assert_eq!(r, Ok(()));
    }
    assert_eq!(replayed.text(), b.text());
    assert_eq!(b.text(), "HELLO");
}

#[test]
fn offsets_count_characters_not_bytes() {
    let mut b = FileBuffer::from_str("κόσμε");
    assert_eq!(b.len(), 5);
    assert_eq!(b.insert(5, "!"), Ok(()));
    assert_eq!(b.delete(1, 3), Ok("όσ".to_string()));
    assert_eq!(b.text(), "κμε!");
    assert_eq!(b.undo(), Ok(()));
    assert_eq!(b.text(), "κόσμε!");
}

#[test]
fn empty_edits_are_still_logged() {
    let mut b = FileBuffer::from_str("ab");
    assert_eq!(b.insert(1, ""), Ok(()));
    assert_eq!(b.delete(1, 1), Ok(String::new()));
    assert_eq!(b.text(), "ab");
    assert_eq!(b.history_len(), 3);
}

#[test]
fn error_descriptions() {
    assert_eq!(EditError::OutOfBounds.describe(), "edit out of bounds");
    assert_eq!(EditError::NothingToUndo.describe(), "nothing to undo");
    assert_eq!(EditError::NothingToRedo.describe(), "nothing to redo");
}

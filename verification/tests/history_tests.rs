use editor_core::buffer::{append_chars, EditOp, TextBuffer};
use editor_core::cursor::{blank, scan_ahead, scan_back};
use editor_core::history::History;
use editor_core::position::Position;
use editor_core::session::Action;

fn seq(s: &str) -> Vec<char> {
    s.chars().collect()
}

fn holding(s: &str) -> TextBuffer {
    let mut buffer = TextBuffer::new();
    buffer.replace_all(seq(s));
    buffer
}

#[test]
fn history_undoes_and_redoes_an_insertion() {
    let mut buffer = holding("ac");
    let mut history = History::new(10);
    buffer.insert_at(1, &seq("b\n"));
    history.record(EditOp::Insert { at: Position::new(0, 1), text: seq("b\n") }, 0, &buffer);
    assert_eq!(history.undo_depth(), 1);
    assert_eq!(history.redo_depth(), 0);
    assert_eq!(history.undo(&mut buffer), Some(Position::new(0, 1)));
    assert_eq!(buffer.chars(), &seq("ac"));
    assert_eq!(history.undo_depth(), 0);
    assert_eq!(history.redo_depth(), 1);
    assert_eq!(history.undo(&mut buffer), None);
    assert_eq!(history.redo(&mut buffer), Some(Position::new(1, 0)));
    assert_eq!(buffer.chars(), &seq("ab\nc"));
    assert_eq!(history.redo(&mut buffer), None);
    assert_eq!(history.undo_depth(), 1);
}

#[test]
fn history_undoes_and_redoes_a_deletion() {
    let mut buffer = holding("ab\ncd");
    let mut history = History::new(10);
    let removed = buffer.remove_range(1, 4);
    assert_eq!(removed, seq("b\nc"));
    history.record(
        EditOp::Delete { from: Position::new(0, 1), to: Position::new(1, 1), removed },
        0,
        &buffer,
    );
    assert_eq!(buffer.chars(), &seq("ad"));
    assert_eq!(history.undo(&mut buffer), Some(Position::new(1, 1)));
    assert_eq!(buffer.chars(), &seq("ab\ncd"));
    assert_eq!(history.redo(&mut buffer), Some(Position::new(0, 1)));
    assert_eq!(buffer.chars(), &seq("ad"));
}

#[test]
fn history_joins_typed_characters_until_flushed() {
    let mut buffer = holding("");
    let mut history = History::new(10);
    buffer.insert_at(0, &seq("a"));
    history.record(EditOp::Insert { at: Position::new(0, 0), text: seq("a") }, 0, &buffer);
    buffer.insert_at(1, &seq("b"));
    history.record(EditOp::Insert { at: Position::new(0, 1), text: seq("b") }, 10, &buffer);
    assert_eq!(history.undo_depth(), 1);
    history.flush();
    buffer.insert_at(2, &seq("c"));
    history.record(EditOp::Insert { at: Position::new(0, 2), text: seq("c") }, 10, &buffer);
    assert_eq!(history.undo_depth(), 2);
    buffer.insert_at(3, &seq("d"));
    history.record(EditOp::Insert { at: Position::new(0, 3), text: seq("d") }, 21, &buffer);
    assert_eq!(history.undo_depth(), 3);
    history.clear();
    assert_eq!(history.undo_depth(), 0);
    assert_eq!(history.undo(&mut buffer), None);
    assert_eq!(buffer.chars(), &seq("abcd"));
}

#[test]
fn history_does_not_join_a_character_typed_elsewhere() {
    let mut buffer = holding("xy");
    let mut history = History::new(10);
    buffer.insert_at(2, &seq("a"));
    history.record(EditOp::Insert { at: Position::new(0, 2), text: seq("a") }, 0, &buffer);
    buffer.insert_at(0, &seq("b"));
    history.record(EditOp::Insert { at: Position::new(0, 0), text: seq("b") }, 0, &buffer);
    assert_eq!(history.undo_depth(), 2);
    assert_eq!(history.undo(&mut buffer), Some(Position::new(0, 0)));
    assert_eq!(buffer.chars(), &seq("xya"));
}

#[test]
fn history_does_not_join_longer_insertions() {
    let mut buffer = holding("");
    let mut history = History::new(10);
    buffer.insert_at(0, &seq("a"));
    history.record(EditOp::Insert { at: Position::new(0, 0), text: seq("a") }, 0, &buffer);
    buffer.insert_at(1, &seq("bc"));
    history.record(EditOp::Insert { at: Position::new(0, 1), text: seq("bc") }, 0, &buffer);
    buffer.insert_at(3, &seq("d"));
    history.record(EditOp::Insert { at: Position::new(0, 3), text: seq("d") }, 0, &buffer);
    assert_eq!(history.undo_depth(), 3);
}

#[test]
fn recording_forgets_what_could_be_redone() {
    let mut buffer = holding("");
    let mut history = History::new(10);
    buffer.insert_at(0, &seq("ab"));
    history.record(EditOp::Insert { at: Position::new(0, 0), text: seq("ab") }, 0, &buffer);
    history.undo(&mut buffer);
    assert_eq!(history.redo_depth(), 1);
    buffer.insert_at(0, &seq("z"));
    history.record(EditOp::Insert { at: Position::new(0, 0), text: seq("z") }, 0, &buffer);
    assert_eq!(history.redo_depth(), 0);
    assert_eq!(history.redo(&mut buffer), None);
    assert_eq!(buffer.chars(), &seq("z"));
}

#[test]
fn blanks_separate_words() {
    assert!(blank(' '));
    assert!(blank('\t'));
    assert!(blank('\n'));
    assert!(blank('\r'));
    assert!(!blank('a'));
    assert!(!blank('_'));
    let buffer = holding("ab  cd");
    assert_eq!(scan_back(&buffer, 4, true), 2);
    assert_eq!(scan_back(&buffer, 2, false), 0);
    assert_eq!(scan_back(&buffer, 4, false), 4);
    assert_eq!(scan_ahead(&buffer, 2, true), 4);
    assert_eq!(scan_ahead(&buffer, 4, false), 6);
    assert_eq!(scan_ahead(&buffer, 6, false), 6);
}

#[test]
fn append_chars_copies_in_order() {
    let mut target = seq("ab");
    append_chars(&mut target, &seq("cd"));
    assert_eq!(target, seq("abcd"));
    append_chars(&mut target, &seq(""));
    assert_eq!(target, seq("abcd"));
}

#[test]
fn only_four_actions_edit() {
    assert!(Action::Insert('a').is_edit());
    assert!(Action::Paste(seq("ab")).is_edit());
    assert!(Action::Backspace.is_edit());
    assert!(Action::Delete.is_edit());
    assert!(!Action::Undo.is_edit());
    assert!(!Action::Redo.is_edit());
    assert!(!Action::Click(Position::new(0, 0)).is_edit());
}

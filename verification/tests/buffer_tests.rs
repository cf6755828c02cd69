use editor_core::buffer::{EditOp, TextBuffer};
use editor_core::error::EditorError;
use editor_core::line_index::LineIndex;
use editor_core::position::Position;

fn chars(s: &str) -> Vec<char> {
    s.chars().collect()
}

fn buffer_of(s: &str) -> TextBuffer {
    let mut buffer = TextBuffer::new();
    buffer.replace_all(chars(s));
    buffer
}

#[test]
fn empty_index_has_one_line() {
    let index = LineIndex::new();
    assert_eq!(index.line_count(), 1);
    assert_eq!(index.offset_of(0, 0), Some(0));
    assert_eq!(index.offset_of(0, 1), None);
    assert_eq!(index.offset_of(1, 0), None);
    assert_eq!(index.position_of(0), Position::new(0, 0));
    assert_eq!(index.position_of(9), Position::new(0, 0));
}

#[test]
fn index_counts_lines_and_resolves_offsets() {
    let mut index = LineIndex::new();
    index.rebuild(&chars("ab\ncdef\n"));
    assert_eq!(index.line_count(), 3);
    assert_eq!(index.line_start(1), 3);
    assert_eq!(index.line_end(0), 2);
    assert_eq!(index.line_end(1), 7);
    assert_eq!(index.line_end(2), 8);
    assert_eq!(index.offset_of(0, 2), Some(2));
    assert_eq!(index.offset_of(0, 3), None);
    assert_eq!(index.offset_of(1, 0), Some(3));
    assert_eq!(index.offset_of(1, 4), Some(7));
    assert_eq!(index.offset_of(1, 5), None);
    assert_eq!(index.offset_of(2, 0), Some(8));
    assert_eq!(index.offset_of(2, 1), None);
    assert_eq!(index.offset_of(3, 0), None);
}

#[test]
fn index_finds_positions_and_clamps() {
    let mut index = LineIndex::new();
    index.rebuild(&chars("ab\ncdef\n"));
    assert_eq!(index.position_of(0), Position::new(0, 0));
    assert_eq!(index.position_of(2), Position::new(0, 2));
    assert_eq!(index.position_of(3), Position::new(1, 0));
    assert_eq!(index.position_of(7), Position::new(1, 4));
    assert_eq!(index.position_of(8), Position::new(2, 0));
    assert_eq!(index.position_of(9), Position::new(2, 0));
    assert_eq!(index.position_of(usize::MAX), Position::new(2, 0));
}

#[test]
fn position_round_trips_through_offset() {
    let texts = ["", "\n", "a", "ab\ncdef\n", "\n\nxy\n\nz", "one\ntwo\nthree"];
    for text in texts {
        let buffer = buffer_of(text);
        let mut seen = 0;
        for line in 0..buffer.line_count() {
            for column in 0..=buffer.line_len(line) {
                let p = Position::new(line, column);
                let offset = buffer.offset_of(p).unwrap();
                assert_eq!(buffer.position_of(offset), p);
                seen += 1;
            }
        }
        assert_eq!(seen, buffer.len() + 1);
    }
}

#[test]
fn index_rebuild_forgets_the_old_text() {
    let mut index = LineIndex::new();
    index.rebuild(&chars("a\nb\nc"));
    assert_eq!(index.line_count(), 3);
    index.rebuild(&chars("abc"));
    assert_eq!(index.line_count(), 1);
    assert_eq!(index.position_of(2), Position::new(0, 2));
}

#[test]
fn buffer_reports_lengths() {
    let buffer = buffer_of("ab\ncdef\n");
    assert_eq!(buffer.len(), 8);
    assert_eq!(buffer.line_count(), 3);
    assert_eq!(buffer.line_len(0), 2);
    assert_eq!(buffer.line_len(1), 4);
    assert_eq!(buffer.line_len(2), 0);
    assert_eq!(buffer.char_at(3), 'c');
    assert_eq!(buffer.chars(), &chars("ab\ncdef\n"));
}

#[test]
fn insert_returns_the_inverse_delete() {
    let mut buffer = buffer_of("ab\ncdef\n");
    let op = buffer.insert(Position::new(1, 2), &chars("X\nY")).unwrap();
    assert_eq!(buffer.chars(), &chars("ab\ncdX\nYef\n"));
    assert_eq!(
        op,
        EditOp::Delete {
            from: Position::new(1, 2),
            to: Position::new(2, 1),
            removed: chars("X\nY"),
        }
    );
    assert_eq!(buffer.line_count(), 4);
}

#[test]
fn insert_outside_the_text_is_refused() {
    let mut buffer = buffer_of("ab\ncdef\n");
    assert_eq!(buffer.insert(Position::new(0, 3), &chars("x")), Err(EditorError::OutOfBounds));
    assert_eq!(buffer.insert(Position::new(3, 0), &chars("x")), Err(EditorError::OutOfBounds));
    assert_eq!(buffer.chars(), &chars("ab\ncdef\n"));
}

#[test]
fn insert_at_the_very_end() {
    let mut buffer = buffer_of("ab");
    buffer.insert(Position::new(0, 2), &chars("\n")).unwrap();
    assert_eq!(buffer.chars(), &chars("ab\n"));
    assert_eq!(buffer.line_count(), 2);
}

#[test]
fn delete_returns_what_it_removed() {
    let mut buffer = buffer_of("ab\ncdef\n");
    let removed = buffer.delete((Position::new(0, 1), Position::new(1, 2))).unwrap();
    assert_eq!(removed, chars("b\ncd"));
    assert_eq!(buffer.chars(), &chars("aef\n"));
    assert_eq!(buffer.line_count(), 2);
}

#[test]
fn delete_orders_its_range() {
    let mut buffer = buffer_of("ab\ncdef\n");
    let removed = buffer.delete((Position::new(1, 3), Position::new(1, 0))).unwrap();
    assert_eq!(removed, chars("cde"));
    assert_eq!(buffer.chars(), &chars("ab\nf\n"));
}

#[test]
fn delete_outside_the_text_is_refused() {
    let mut buffer = buffer_of("ab\ncdef\n");
    assert_eq!(
        buffer.delete((Position::new(0, 0), Position::new(1, 9))),
        Err(EditorError::OutOfBounds)
    );
    assert_eq!(
        buffer.delete((Position::new(7, 0), Position::new(0, 0))),
        Err(EditorError::OutOfBounds)
    );
    assert_eq!(buffer.chars(), &chars("ab\ncdef\n"));
}

#[test]
fn delete_of_an_empty_range_changes_nothing() {
    let mut buffer = buffer_of("ab\ncdef\n");
    let removed = buffer.delete((Position::new(1, 1), Position::new(1, 1))).unwrap();
    assert_eq!(removed, chars(""));
    assert_eq!(buffer.chars(), &chars("ab\ncdef\n"));
}

#[test]
fn offsets_edit_the_text() {
    let mut buffer = buffer_of("hello");
    buffer.insert_at(5, &chars(" world"));
    assert_eq!(buffer.chars(), &chars("hello world"));
    let removed = buffer.remove_range(0, 6);
    assert_eq!(removed, chars("hello "));
    assert_eq!(buffer.chars(), &chars("world"));
    assert_eq!(buffer.offset_at(Position::new(0, 4)), 4);
}

#[test]
fn replace_all_resets_the_lines() {
    let mut buffer = buffer_of("a\nb\nc\n");
    buffer.replace_all(chars("xyz"));
    assert_eq!(buffer.len(), 3);
    assert_eq!(buffer.line_count(), 1);
    assert_eq!(buffer.offset_of(Position::new(1, 0)), None);
}

#[test]
fn text_of_other_scripts_counts_characters() {
    let mut buffer = buffer_of("h\u{e9}llo\n\u{4e16}\u{754c}");
    assert_eq!(buffer.len(), 8);
    assert_eq!(buffer.line_len(1), 2);
    buffer.insert(Position::new(1, 1), &chars("\u{1f600}")).unwrap();
    assert_eq!(buffer.chars(), &chars("h\u{e9}llo\n\u{4e16}\u{1f600}\u{754c}"));
    assert_eq!(buffer.position_of(8), Position::new(1, 2));
}

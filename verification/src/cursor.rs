//! The cursor, its selection, and the rules by which it moves.

use crate::buffer::TextBuffer;
use crate::position::{
    lemma_line_starts_ordered, line_len, line_starts, offset_of, position_of, valid_position,
    Position,
};
use vstd::prelude::*;

verus! {

/// Where the cursor can be sent.
#[derive(Clone, Copy, Debug, PartialEq, Eq, Structural)]
pub enum Direction {
    /// One character back, over a line feed too; stays at the document's
    /// start.
    Left,
    /// One character ahead, over a line feed too; stays at the document's
    /// end.
    Right,
    /// One line up, to the column aimed for or to the line's end if the line
    /// is shorter; stays where it is on the first line.
    Up,
    /// One line down, to the column aimed for or to the line's end if the
    /// line is shorter; stays where it is on the last line.
    Down,
    /// To the start of the line.
    LineStart,
    /// To the end of the line, before its line feed.
    LineEnd,
    /// To the start of the document.
    DocumentStart,
    /// To the end of the document.
    DocumentEnd,
    /// Back over blanks and then over the word before them, to its start.
    WordLeft,
    /// Ahead over blanks and then over the word behind them, to its end.
    WordRight,
}

/// Whether `c` separates words: a space, a tab, a line feed or a carriage
/// return.
pub open spec fn is_blank(c: char) -> bool {
    c == ' ' || c == '\t' || c == '\n' || c == '\r'
}

/// The offset reached from `at` by going back over characters that are
/// blank (`blank` true) or not blank (`blank` false).
pub open spec fn skip_back(text: Seq<char>, at: int, blank: bool) -> int
    decreases at,
{
    if 0 < at <= text.len() && is_blank(text[at - 1]) == blank {
        skip_back(text, at - 1, blank)
    } else {
        at
    }
}

/// The offset reached from `at` by going ahead over characters that are
/// blank (`blank` true) or not blank (`blank` false).
pub open spec fn skip_ahead(text: Seq<char>, at: int, blank: bool) -> int
    decreases text.len() - at,
{
    if 0 <= at < text.len() && is_blank(text[at]) == blank {
        skip_ahead(text, at + 1, blank)
    } else {
        at
    }
}

/// The start of the word before `at`.
pub open spec fn word_left(text: Seq<char>, at: int) -> int {
    skip_back(text, skip_back(text, at, true), false)
}

/// The end of the word behind `at`.
pub open spec fn word_right(text: Seq<char>, at: int) -> int {
    skip_ahead(text, skip_ahead(text, at, true), false)
}

/// The column that a vertical move aims for: the remembered one, or the
/// cursor's own.
pub open spec fn goal_column(head: Position, goal: Option<usize>) -> usize {
    match goal {
        Some(column) => column,
        None => head.column,
    }
}

/// `column`, or the length of line `line` if the line is shorter.
pub open spec fn column_on(text: Seq<char>, line: int, column: usize) -> usize {
    if column <= line_len(text, line) {
        column
    } else {
        line_len(text, line) as usize
    }
}

/// `p`, pulled back to the last line and to the end of its line where it lies
/// beyond them.
pub open spec fn clamp_position(text: Seq<char>, p: Position) -> Position {
    let line = if p.line < line_starts(text).len() {
        p.line
    } else {
        (line_starts(text).len() - 1) as usize
    };
    Position { line, column: column_on(text, line as int, p.column) }
}

/// Where a cursor at `head`, aiming for column `goal` on vertical moves, goes
/// in `text` when sent in `direction`.
pub open spec fn move_target(
    text: Seq<char>,
    head: Position,
    goal: Option<usize>,
    direction: Direction,
) -> Position {
    let at = offset_of(text, head);
    match direction {
        Direction::Left => if at == 0 {
            head
        } else {
            position_of(text, at - 1)
        },
        Direction::Right => position_of(text, at + 1),
        Direction::Up => if head.line == 0 {
            head
        } else {
            Position {
                line: (head.line - 1) as usize,
                column: column_on(text, head.line - 1, goal_column(head, goal)),
            }
        },
        Direction::Down => if head.line + 1 >= line_starts(text).len() {
            head
        } else {
            Position {
                line: (head.line + 1) as usize,
                column: column_on(text, head.line + 1, goal_column(head, goal)),
            }
        },
        Direction::LineStart => Position { line: head.line, column: 0 },
        Direction::LineEnd => Position {
            line: head.line,
            column: line_len(text, head.line as int) as usize,
        },
        Direction::DocumentStart => Position { line: 0, column: 0 },
        Direction::DocumentEnd => position_of(text, text.len() as int),
        Direction::WordLeft => position_of(text, word_left(text, at)),
        Direction::WordRight => position_of(text, word_right(text, at)),
    }
}

/// Whether `c` separates words.
pub fn blank(c: char) -> (b: bool)
    ensures
        b == is_blank(c),
{
    c == ' ' || c == '\t' || c == '\n' || c == '\r'
}

/// Goes back from `at` over blank or over non-blank characters.
pub fn scan_back(buffer: &TextBuffer, at: usize, over_blank: bool) -> (r: usize)
    requires
        at <= buffer@.len(),
    ensures
        r == skip_back(buffer@, at as int, over_blank),
        r <= at,
{
    let mut i: usize = at;
    while i > 0 && blank(buffer.char_at(i - 1)) == over_blank
        invariant
            i <= at <= buffer@.len(),
            skip_back(buffer@, i as int, over_blank) == skip_back(buffer@, at as int, over_blank),
        decreases i,
    {
        i -= 1;
    }
    i
}

/// Goes ahead from `at` over blank or over non-blank characters.
pub fn scan_ahead(buffer: &TextBuffer, at: usize, over_blank: bool) -> (r: usize)
    requires
        at <= buffer@.len(),
    ensures
        r == skip_ahead(buffer@, at as int, over_blank),
        at <= r <= buffer@.len(),
{
    let len: usize = buffer.len();
    let mut i: usize = at;
    while i < len && blank(buffer.char_at(i)) == over_blank
        invariant
            at <= i <= len,
            len == buffer@.len(),
            skip_ahead(buffer@, i as int, over_blank) == skip_ahead(
                buffer@,
                at as int,
                over_blank,
            ),
        decreases len - i,
    {
        i += 1;
    }
    i
}

/// A selection from `anchor` to `head`, where the cursor stands, and the
/// column that vertical moves aim for.
#[derive(Clone, Copy, Debug)]
pub struct Cursor {
    pub anchor: Position,
    pub head: Position,
    pub goal: Option<usize>,
}

impl Cursor {
    /// Both ends of the selection lie in `text`.
    pub open spec fn wf(&self, text: Seq<char>) -> bool {
        &&& valid_position(text, self.anchor)
        &&& valid_position(text, self.head)
    }

    /// A cursor at the start of the document, with nothing selected.
    pub fn new() -> (cursor: Cursor)
        ensures
            cursor.anchor == (Position { line: 0, column: 0 }),
            cursor.head == cursor.anchor,
            cursor.goal is None,
    {
        let start = Position { line: 0, column: 0 };
        Cursor { anchor: start, head: start, goal: None }
    }

    /// Puts the cursor at `position`, or at the nearest location of the
    /// document, with nothing selected.
    pub fn set(&mut self, buffer: &TextBuffer, position: Position)
        requires
            buffer.wf(),
        ensures
            final(self).head == clamp_position(buffer@, position),
            final(self).anchor == final(self).head,
            final(self).goal is None,
            final(self).wf(buffer@),
            valid_position(buffer@, position) ==> final(self).head == position,
    {
        let count: usize = buffer.line_count();
        let line: usize = if position.line < count {
            position.line
        } else {
            count - 1
        };
        let len: usize = buffer.line_len(line);
        let column: usize = if position.column <= len {
            position.column
        } else {
            len
        };
        let target = Position { line, column };
        self.anchor = target;
        self.head = target;
        self.goal = None;
    }

    /// Puts the cursor at a location of the document, with nothing selected.
    pub fn collapse_to(&mut self, position: Position)
        ensures
            final(self).head == position,
            final(self).anchor == position,
            final(self).goal is None,
    {
        self.anchor = position;
        self.head = position;
        self.goal = None;
    }

    /// Sends the cursor in `direction`. With `extend` the anchor stays and the
    /// selection grows or shrinks; without it the selection collapses to the
    /// cursor. Vertical moves remember the column they aim for; every other
    /// move forgets it.
    pub fn move_cursor(&mut self, buffer: &TextBuffer, direction: Direction, extend: bool)
        requires
            buffer.wf(),
            old(self).wf(buffer@),
        ensures
            final(self).wf(buffer@),
            final(self).head == move_target(buffer@, old(self).head, old(self).goal, direction),
            final(self).anchor == if extend {
                old(self).anchor
            } else {
                final(self).head
            },
            final(self).goal == if direction == Direction::Up || direction == Direction::Down {
                Some(goal_column(old(self).head, old(self).goal))
            } else {
                None::<usize>
            },
    {
        let head = self.head;
        let aim: usize = match self.goal {
            Some(column) => column,
            None => head.column,
        };
        let count: usize = buffer.line_count();
        let mut goal: Option<usize> = None;
        let target = match direction {
            Direction::Left => {
                let at: usize = buffer.offset_at(head);
                if at == 0 {
                    head
                } else {
                    buffer.position_of(at - 1)
                }
            },
            Direction::Right => {
                let at: usize = buffer.offset_at(head);
                if at < buffer.len() {
                    buffer.position_of(at + 1)
                } else {
                    buffer.position_of(at)
                }
            },
            Direction::Up => {
                goal = Some(aim);
                if head.line == 0 {
                    head
                } else {
                    let len: usize = buffer.line_len(head.line - 1);
                    Position { line: head.line - 1, column: if aim <= len { aim } else { len } }
                }
            },
            Direction::Down => {
                goal = Some(aim);
                if head.line + 1 >= count {
                    head
                } else {
                    let len: usize = buffer.line_len(head.line + 1);
                    Position { line: head.line + 1, column: if aim <= len { aim } else { len } }
                }
            },
            Direction::LineStart => Position { line: head.line, column: 0 },
            Direction::LineEnd => Position { line: head.line, column: buffer.line_len(head.line) },
            Direction::DocumentStart => {
                proof {
                    lemma_line_starts_ordered(buffer@);
                }
                Position { line: 0, column: 0 }
            },
            Direction::DocumentEnd => buffer.position_of(buffer.len()),
            Direction::WordLeft => {
                let at: usize = buffer.offset_at(head);
                let blanks: usize = scan_back(buffer, at, true);
                buffer.position_of(scan_back(buffer, blanks, false))
            },
            Direction::WordRight => {
                let at: usize = buffer.offset_at(head);
                let blanks: usize = scan_ahead(buffer, at, true);
                buffer.position_of(scan_ahead(buffer, blanks, false))
            },
        };
        self.head = target;
        if !extend {
            self.anchor = target;
        }
        self.goal = goal;
    }
}

} // verus!

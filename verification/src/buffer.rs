//! The document's characters, with edits addressed by location.

use crate::error::EditorError;
use crate::line_index::LineIndex;
use crate::position::{
    lemma_line_starts_ordered, lemma_position_of_valid, line_len, line_starts, offset_of,
    position_of, valid_position, Position,
};
use vstd::prelude::*;

verus! {

/// `text` with `piece` put in at offset `at`.
pub open spec fn splice_in(text: Seq<char>, at: int, piece: Seq<char>) -> Seq<char> {
    text.take(at) + piece + text.skip(at)
}

/// `text` without the characters from offset `from` up to offset `to`.
pub open spec fn cut_out(text: Seq<char>, from: int, to: int) -> Seq<char> {
    text.take(from) + text.skip(to)
}

/// One applied edit, with the text that inverting it needs.
#[derive(Clone, Debug, PartialEq, Eq)]
pub enum EditOp {
    /// `text` was put in at `at`.
    Insert { at: Position, text: Vec<char> },
    /// `removed` was taken out between `from` and `to`, the earlier location
    /// first.
    Delete { from: Position, to: Position, removed: Vec<char> },
}

/// Appends a copy of `src` to `dst`.
pub fn append_chars(dst: &mut Vec<char>, src: &Vec<char>)
    ensures
        final(dst)@ == old(dst)@ + src@,
{
    let mut i: usize = 0;
    assert(dst@ =~= old(dst)@ + src@.take(0));
    while i < src.len()
        invariant
            i <= src.len(),
            dst@ == old(dst)@ + src@.take(i as int),
        decreases src.len() - i,
    {
        dst.push(src[i]);
        assert(dst@ =~= old(dst)@ + src@.take(i + 1));
        i += 1;
    }
    assert(src@.take(i as int) =~= src@);
}

/// The characters of a document and the index of its lines.
pub struct TextBuffer {
    chars: Vec<char>,
    index: LineIndex,
}

impl View for TextBuffer {
    type V = Seq<char>;

    /// The document's characters, in order.
    closed spec fn view(&self) -> Seq<char> {
        self.chars@
    }
}

impl TextBuffer {
    /// The line index is the one of the current characters.
    pub closed spec fn wf(&self) -> bool {
        self.index.describes(self.chars@)
    }

    /// An empty document.
    pub fn new() -> (buffer: TextBuffer)
        ensures
            buffer.wf(),
            buffer@ == Seq::<char>::empty(),
    {
        TextBuffer { chars: Vec::new(), index: LineIndex::new() }
    }

    /// The number of characters.
    pub fn len(&self) -> (n: usize)
        ensures
            n == self@.len(),
    {
        self.chars.len()
    }

    /// The number of lines.
    pub fn line_count(&self) -> (n: usize)
        requires
            self.wf(),
        ensures
            n == line_starts(self@).len(),
            n >= 1,
    {
        proof {
            lemma_line_starts_ordered(self@);
        }
        self.index.line_count()
    }

    /// The characters, to read.
    pub fn chars(&self) -> (chars: &Vec<char>)
        ensures
            chars@ == self@,
    {
        &self.chars
    }

    /// The character at offset `offset`.
    pub fn char_at(&self, offset: usize) -> (c: char)
        requires
            offset < self@.len(),
        ensures
            c == self@[offset as int],
    {
        self.chars[offset]
    }

    /// The offset of `p`, if `p` lies in the document.
    pub fn offset_of(&self, p: Position) -> (r: Option<usize>)
        requires
            self.wf(),
        ensures
            r is Some <==> valid_position(self@, p),
            r is Some ==> r->Some_0 == offset_of(self@, p),
            r is Some ==> r->Some_0 <= self@.len(),
    {
        proof {
            lemma_line_starts_ordered(self@);
        }
        let r = self.index.offset_of(p.line, p.column);
        proof {
            if r is Some {
                let starts = line_starts(self@);
                if p.line + 1 < starts.len() {
                    assert(starts[p.line + 1] <= self@.len());
                }
            }
        }
        r
    }

    /// The offset of a location that lies in the document.
    pub fn offset_at(&self, p: Position) -> (offset: usize)
        requires
            self.wf(),
            valid_position(self@, p),
        ensures
            offset == offset_of(self@, p),
            offset <= self@.len(),
    {
        match self.offset_of(p) {
            Some(offset) => offset,
            // Does not occur: the location lies in the document.
            None => 0,
        }
    }

    /// The location of `offset`; an offset behind the document gives its end.
    pub fn position_of(&self, offset: usize) -> (p: Position)
        requires
            self.wf(),
        ensures
            p == position_of(self@, offset as int),
            valid_position(self@, p),
            offset <= self@.len() ==> offset_of(self@, p) == offset,
    {
        // Reading the length tells that it fits a `usize`.
        let len: usize = self.chars.len();
        proof {
            lemma_line_starts_ordered(self@);
            lemma_position_of_valid(self@, offset as int);
        }
        self.index.position_of(offset)
    }

    /// The number of characters on line `line`, its line feed not counted.
    pub fn line_len(&self, line: usize) -> (n: usize)
        requires
            self.wf(),
            line < line_starts(self@).len(),
        ensures
            n == line_len(self@, line as int),
            valid_position(self@, Position { line, column: n }),
    {
        proof {
            lemma_line_starts_ordered(self@);
        }
        self.index.line_end(line) - self.index.line_start(line)
    }

    /// Puts `text` in at offset `at`.
    pub fn insert_at(&mut self, at: usize, text: &Vec<char>)
        requires
            old(self).wf(),
            at <= old(self)@.len(),
        ensures
            final(self).wf(),
            final(self)@ == splice_in(old(self)@, at as int, text@),
    {
        let mut tail = self.chars.split_off(at);
        append_chars(&mut self.chars, text);
        self.chars.append(&mut tail);
        self.index.rebuild(&self.chars);
    }

    /// Takes out the characters from offset `from` up to offset `to` and
    /// returns them.
    pub fn remove_range(&mut self, from: usize, to: usize) -> (removed: Vec<char>)
        requires
            old(self).wf(),
            from <= to <= old(self)@.len(),
        ensures
            final(self).wf(),
            final(self)@ == cut_out(old(self)@, from as int, to as int),
            removed@ == old(self)@.subrange(from as int, to as int),
    {
        let mut tail = self.chars.split_off(to);
        let removed = self.chars.split_off(from);
        self.chars.append(&mut tail);
        self.index.rebuild(&self.chars);
        assert(removed@ =~= old(self)@.subrange(from as int, to as int));
        assert(self.chars@ =~= cut_out(old(self)@, from as int, to as int));
        removed
    }

    /// Puts `text` in at `at` and returns the edit that takes it out again;
    /// fails, and changes nothing, if `at` does not lie in the document.
    pub fn insert(&mut self, at: Position, text: &Vec<char>) -> (r: Result<EditOp, EditorError>)
        requires
            old(self).wf(),
        ensures
            final(self).wf(),
            r is Ok <==> valid_position(old(self)@, at),
            r is Ok ==> {
                let offset = offset_of(old(self)@, at);
                &&& final(self)@ == splice_in(old(self)@, offset, text@)
                &&& r->Ok_0 matches EditOp::Delete { from, to, removed }
                &&& from == at
                &&& to == position_of(final(self)@, offset + text@.len())
                &&& removed@ == text@
            },
            r is Err ==> r->Err_0 == EditorError::OutOfBounds && final(self)@ == old(self)@,
    {
        match self.offset_of(at) {
            Some(offset) => {
                self.insert_at(offset, text);
                let mut removed: Vec<char> = Vec::new();
                append_chars(&mut removed, text);
                assert(removed@ =~= text@);
                // The new length fits a `usize`, so the end of what was put in does.
                let total: usize = self.chars.len();
                assert(total == old(self)@.len() + text@.len());
                let end_offset: usize = offset + text.len();
                let end = self.position_of(end_offset);
                Ok(EditOp::Delete { from: at, to: end, removed })
            },
            None => Err(EditorError::OutOfBounds),
        }
    }

    /// Takes out what lies between the two locations of `range`, whichever
    /// comes first, and returns it; fails, and changes nothing, if either
    /// does not lie in the document.
    pub fn delete(&mut self, range: (Position, Position)) -> (r: Result<Vec<char>, EditorError>)
        requires
            old(self).wf(),
        ensures
            final(self).wf(),
            r is Ok <==> valid_position(old(self)@, range.0) && valid_position(
                old(self)@,
                range.1,
            ),
            r is Ok ==> {
                let a = offset_of(old(self)@, range.0);
                let b = offset_of(old(self)@, range.1);
                let from = if a <= b { a } else { b };
                let to = if a <= b { b } else { a };
                &&& final(self)@ == cut_out(old(self)@, from, to)
                &&& r->Ok_0@ == old(self)@.subrange(from, to)
            },
            r is Err ==> r->Err_0 == EditorError::OutOfBounds && final(self)@ == old(self)@,
    {
        match (self.offset_of(range.0), self.offset_of(range.1)) {
            (Some(a), Some(b)) => {
                if a <= b {
                    Ok(self.remove_range(a, b))
                } else {
                    Ok(self.remove_range(b, a))
                }
            },
            _ => Err(EditorError::OutOfBounds),
        }
    }

    /// Makes `text` the whole document.
    pub fn replace_all(&mut self, text: Vec<char>)
        ensures
            final(self).wf(),
            final(self)@ == text@,
    {
        self.chars = text;
        self.index.rebuild(&self.chars);
    }
}

} // verus!

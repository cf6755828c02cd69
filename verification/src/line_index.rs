//! The table of line starts that turns offsets into locations and back.

use crate::position::{
    lemma_line_at_unique, lemma_line_starts_ordered, line_end_in, line_starts, offset_in, ordered_starts,
    position_in, valid_in, Position,
};
use vstd::prelude::*;

verus! {

/// The offsets held in `starts`, as mathematical integers.
pub open spec fn starts_view(starts: Seq<usize>) -> Seq<int> {
    Seq::new(starts.len(), |k: int| starts[k] as int)
}

/// The start offset of every line of a text, and the text's length.
pub struct LineIndex {
    starts: Vec<usize>,
    len: usize,
}

impl View for LineIndex {
    type V = Seq<int>;

    /// The start offset of each line, in order.
    closed spec fn view(&self) -> Seq<int> {
        starts_view(self.starts@)
    }
}

impl LineIndex {
    /// The length of the text that the index was built for.
    pub closed spec fn text_len(&self) -> int {
        self.len as int
    }

    /// The table begins with zero, rises strictly and stays within the text.
    pub open spec fn wf(&self) -> bool {
        ordered_starts(self@, self.text_len())
    }

    /// The index is the one of `text`.
    pub open spec fn describes(&self, text: Seq<char>) -> bool {
        &&& self@ == line_starts(text)
        &&& self.text_len() == text.len()
    }

    /// The index of the empty text: one line, starting at zero.
    pub fn new() -> (index: LineIndex)
        ensures
            index.describes(Seq::<char>::empty()),
            index.wf(),
    {
        let mut starts: Vec<usize> = Vec::new();
        starts.push(0);
        let index = LineIndex { starts, len: 0 };
        proof {
            assert(index@ =~= line_starts(Seq::<char>::empty()));
            lemma_line_starts_ordered(Seq::<char>::empty());
        }
        index
    }

    /// Recomputes the index for `text` in one pass.
    pub fn rebuild(&mut self, text: &Vec<char>)
        ensures
            final(self).describes(text@),
            final(self).wf(),
    {
        let mut starts: Vec<usize> = Vec::new();
        starts.push(0);
        let mut i: usize = 0;
        proof {
            assert(starts_view(starts@) =~= line_starts(text@.take(0)));
        }
        while i < text.len()
            invariant
                i <= text.len(),
                starts_view(starts@) == line_starts(text@.take(i as int)),
            decreases text.len() - i,
        {
            let ghost before = starts@;
            if text[i] == '\n' {
                starts.push(i + 1);
            }
            proof {
                let upto = text@.take(i + 1);
                assert(upto.drop_last() =~= text@.take(i as int));
                assert(upto.last() == text@[i as int]);
                if text@[i as int] == '\n' {
                    assert(starts_view(starts@) =~= starts_view(before).push(i + 1));
                }
            }
            i += 1;
        }
        proof {
            assert(text@.take(i as int) =~= text@);
            lemma_line_starts_ordered(text@);
        }
        self.starts = starts;
        self.len = text.len();
    }

    /// The number of lines: one more than the number of line feeds.
    pub fn line_count(&self) -> (n: usize)
        ensures
            n == self@.len(),
    {
        self.starts.len()
    }

    /// The offset at which line `line` starts.
    pub fn line_start(&self, line: usize) -> (start: usize)
        requires
            self.wf(),
            line < self@.len(),
        ensures
            start == self@[line as int],
    {
        self.starts[line]
    }

    /// The offset at which line `line` ends: before its line feed, or at the
    /// end of the text.
    pub fn line_end(&self, line: usize) -> (end: usize)
        requires
            self.wf(),
            line < self@.len(),
        ensures
            end == line_end_in(self@, self.text_len(), line as int),
            self@[line as int] <= end <= self.text_len(),
    {
        let count: usize = self.starts.len();
        assert(self@[line as int] == self.starts@[line as int]);
        if line + 1 < count {
            assert(self@[line as int] < self@[line + 1]);
            assert(self@[line + 1] == self.starts@[line + 1]);
            self.starts[line + 1] - 1
        } else {
            self.len
        }
    }

    /// The offset of `(line, column)`, if the index has such a line and the
    /// line has such a column.
    pub fn offset_of(&self, line: usize, column: usize) -> (r: Option<usize>)
        requires
            self.wf(),
        ensures
            r is Some <==> valid_in(self@, self.text_len(), Position { line, column }),
            r is Some ==> r->Some_0 == offset_in(self@, Position { line, column }),
    {
        if line >= self.starts.len() {
            return None;
        }
        let start: usize = self.line_start(line);
        let end: usize = self.line_end(line);
        if column <= end - start {
            Some(start + column)
        } else {
            None
        }
    }

    /// The location of `offset`, found by bisection; an offset behind the text
    /// gives the text's end.
    pub fn position_of(&self, offset: usize) -> (p: Position)
        requires
            self.wf(),
        ensures
            p == position_in(self@, self.text_len(), offset as int),
    {
        let at: usize = if offset > self.len {
            self.len
        } else {
            offset
        };
        let mut lo: usize = 0;
        let mut hi: usize = self.starts.len();
        assert(self@[0] == self.starts@[0]);
        while hi - lo > 1
            invariant
                self.wf(),
                lo < hi <= self.starts.len(),
                self.starts@[lo as int] <= at,
                hi < self.starts.len() ==> at < self.starts@[hi as int],
            decreases hi - lo,
        {
            let mid: usize = lo + (hi - lo) / 2;
            if self.starts[mid] <= at {
                lo = mid;
            } else {
                hi = mid;
            }
        }
        proof {
            assert(self@[lo as int] == self.starts@[lo as int]);
            if lo + 1 < self.starts.len() {
                assert(self@[lo + 1] == self.starts@[lo + 1]);
            }
            lemma_line_at_unique(self@, self.text_len(), at as int, lo as int);
        }
        Position { line: lo, column: at - self.starts[lo] }
    }
}

} // verus!

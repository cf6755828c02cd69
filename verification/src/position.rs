//! Locations in a text, and the arithmetic between offsets and lines.

use vstd::prelude::*;

verus! {

/// A zero-indexed location: `column` counts the characters since the start of
/// line `line`.
#[derive(Clone, Copy, Debug, PartialEq, Eq, Structural)]
pub struct Position {
    pub line: usize,
    pub column: usize,
}

impl Position {
    /// The location `(line, column)`.
    pub fn new(line: usize, column: usize) -> (p: Position)
        ensures
            p == (Position { line, column }),
    {
        Position { line, column }
    }
}

/// The offsets at which the lines of `text` start: zero, and the offset just
/// behind each line feed, in rising order.
pub open spec fn line_starts(text: Seq<char>) -> Seq<int>
    decreases text.len(),
{
    if text.len() == 0 {
        seq![0int]
    } else if text.last() == '\n' {
        line_starts(text.drop_last()).push(text.len() as int)
    } else {
        line_starts(text.drop_last())
    }
}

/// What makes `starts` a usable table of line starts for a text of `len`
/// characters: it begins with zero, rises strictly and stays within the text.
pub open spec fn ordered_starts(starts: Seq<int>, len: int) -> bool {
    &&& starts.len() >= 1
    &&& starts[0] == 0
    &&& forall|j: int, k: int| 0 <= j < k < starts.len() ==> starts[j] < starts[k]
    &&& forall|k: int| 0 <= k < starts.len() ==> #[trigger] starts[k] <= len
}

/// The offset at which line `line` ends: just before its line feed, or at the
/// end of the text for the last line.
pub open spec fn line_end_in(starts: Seq<int>, len: int, line: int) -> int {
    if line + 1 < starts.len() {
        starts[line + 1] - 1
    } else {
        len
    }
}

/// Whether `p` names a line of the table and a column within that line.
pub open spec fn valid_in(starts: Seq<int>, len: int, p: Position) -> bool {
    &&& p.line < starts.len()
    &&& starts[p.line as int] + p.column <= line_end_in(starts, len, p.line as int)
}

/// The offset that `p` stands for.
pub open spec fn offset_in(starts: Seq<int>, p: Position) -> int {
    starts[p.line as int] + p.column
}

/// The last line that starts at or before `off` (line zero if there is none).
pub open spec fn line_at(starts: Seq<int>, off: int) -> int
    decreases starts.len(),
{
    if starts.len() <= 1 {
        0
    } else if starts.last() <= off {
        starts.len() - 1
    } else {
        line_at(starts.drop_last(), off)
    }
}

/// `off`, pulled back to the end of a text of `len` characters.
pub open spec fn clamp_offset(len: int, off: int) -> int {
    if off > len {
        len
    } else {
        off
    }
}

/// The location of offset `off`; an offset behind the text counts as its end.
pub open spec fn position_in(starts: Seq<int>, len: int, off: int) -> Position {
    let at = clamp_offset(len, off);
    let line = line_at(starts, at);
    Position { line: line as usize, column: (at - starts[line]) as usize }
}

/// Whether `p` is a location in `text`.
pub open spec fn valid_position(text: Seq<char>, p: Position) -> bool {
    valid_in(line_starts(text), text.len() as int, p)
}

/// The offset of location `p` in `text`.
pub open spec fn offset_of(text: Seq<char>, p: Position) -> int {
    offset_in(line_starts(text), p)
}

/// The location of offset `off` in `text`.
pub open spec fn position_of(text: Seq<char>, off: int) -> Position {
    position_in(line_starts(text), text.len() as int, off)
}

/// The number of characters on line `line` of `text`, its line feed not counted.
pub open spec fn line_len(text: Seq<char>, line: int) -> int {
    line_end_in(line_starts(text), text.len() as int, line) - line_starts(text)[line]
}

/// The line starts of a text form an ordered table, and each but the first
/// follows a line feed.
pub proof fn lemma_line_starts_ordered(text: Seq<char>)
    ensures
        ordered_starts(line_starts(text), text.len() as int),
        forall|k: int|
            1 <= k < line_starts(text).len() ==> text[#[trigger] line_starts(text)[k] - 1]
                == '\n',
    decreases text.len(),
{
    if text.len() > 0 {
        let shorter = text.drop_last();
        lemma_line_starts_ordered(shorter);
        let prev = line_starts(shorter);
        let cur = line_starts(text);
        assert forall|k: int| 1 <= k < cur.len() implies text[#[trigger] cur[k] - 1] == '\n' by {
            if k < prev.len() {
                assert(cur[k] == prev[k]);
                assert(shorter[prev[k] - 1] == text[prev[k] - 1]);
            }
        }
        assert forall|j: int, k: int| 0 <= j < k < cur.len() implies cur[j] < cur[k] by {
            assert(prev[j] <= shorter.len());
        }
    }
}

/// A line starts at offset zero and behind every line feed, and nowhere else.
pub proof fn lemma_line_starts_members(text: Seq<char>, off: int)
    ensures
        line_starts(text).contains(off) <==> (off == 0 || (0 < off <= text.len() && text[off - 1]
            == '\n')),
    decreases text.len(),
{
    let cur = line_starts(text);
    if text.len() == 0 {
        assert(cur[0] == 0);
    } else {
        let shorter = text.drop_last();
        let prev = line_starts(shorter);
        lemma_line_starts_members(shorter, off);
        if 0 < off < text.len() {
            assert(shorter[off - 1] == text[off - 1]);
        }
        if text.last() == '\n' {
            if prev.contains(off) {
                let i = choose|i: int| 0 <= i < prev.len() && prev[i] == off;
                assert(cur[i] == off);
            }
            if off == text.len() {
                assert(cur[prev.len() as int] == off);
            }
            if cur.contains(off) {
                let i = choose|i: int| 0 <= i < cur.len() && cur[i] == off;
                if i < prev.len() {
                    assert(prev[i] == off);
                }
            }
        }
    }
}

/// In an ordered table line `k` starts no earlier than offset `k`.
pub proof fn lemma_starts_grow(starts: Seq<int>, len: int, k: int)
    requires
        ordered_starts(starts, len),
        0 <= k < starts.len(),
    ensures
        k <= starts[k],
    decreases k,
{
    if k > 0 {
        lemma_starts_grow(starts, len, k - 1);
    }
}

/// `line_at` finds a line that holds the offset.
pub proof fn lemma_line_at_holds(starts: Seq<int>, len: int, off: int)
    requires
        ordered_starts(starts, len),
        0 <= off,
    ensures
        0 <= line_at(starts, off) < starts.len(),
        starts[line_at(starts, off)] <= off,
        line_at(starts, off) + 1 < starts.len() ==> off < starts[line_at(starts, off) + 1],
    decreases starts.len(),
{
    if starts.len() > 1 && starts.last() > off {
        let front = starts.drop_last();
        assert(ordered_starts(front, len)) by {
            assert forall|k: int| 0 <= k < front.len() implies #[trigger] front[k] <= len by {
                assert(front[k] == starts[k]);
            }
        }
        lemma_line_at_holds(front, len, off);
    }
}

/// Only one line of an ordered table holds a given offset.
pub proof fn lemma_line_at_unique(starts: Seq<int>, len: int, off: int, line: int)
    requires
        ordered_starts(starts, len),
        0 <= line < starts.len(),
        starts[line] <= off,
        line + 1 < starts.len() ==> off < starts[line + 1],
    ensures
        line_at(starts, off) == line,
{
    lemma_line_at_holds(starts, len, off);
    let found = line_at(starts, off);
    if found < line {
        assert(starts[found + 1] <= starts[line]);
    } else if line < found {
        assert(starts[line + 1] <= starts[found]);
    }
}

/// The offset of a location in a text lies within the text.
pub proof fn lemma_offset_in_text(text: Seq<char>, p: Position)
    requires
        valid_position(text, p),
    ensures
        0 <= offset_of(text, p) <= text.len(),
{
    lemma_line_starts_ordered(text);
    let starts = line_starts(text);
    assert(0 <= starts[p.line as int]) by {
        lemma_starts_grow(starts, text.len() as int, p.line as int);
    }
    if p.line + 1 < starts.len() {
        assert(starts[p.line + 1] <= text.len());
    }
}

/// In any ordered table, turning a location into an offset and back gives
/// the same location.
pub proof fn lemma_round_trip_in(starts: Seq<int>, len: int, p: Position)
    requires
        ordered_starts(starts, len),
        valid_in(starts, len, p),
    ensures
        position_in(starts, len, offset_in(starts, p)) == p,
{
    let off = offset_in(starts, p);
    assert(starts[p.line as int] <= len);
    if p.line + 1 < starts.len() {
        assert(starts[p.line + 1] <= len);
    }
    lemma_line_at_unique(starts, len, off, p.line as int);
}

/// Turning a location of a text into an offset and back gives the same
/// location.
pub proof fn lemma_position_round_trip(text: Seq<char>, p: Position)
    requires
        valid_position(text, p),
    ensures
        position_of(text, offset_of(text, p)) == p,
{
    lemma_line_starts_ordered(text);
    lemma_round_trip_in(line_starts(text), text.len() as int, p);
}

/// The location of an offset lies in the text, at that offset (or at the
/// text's end, if the offset lies behind it).
pub proof fn lemma_position_of_valid(text: Seq<char>, off: int)
    requires
        0 <= off,
        text.len() <= usize::MAX,
    ensures
        valid_position(text, position_of(text, off)),
        offset_of(text, position_of(text, off)) == clamp_offset(text.len() as int, off),
{
    lemma_line_starts_ordered(text);
    let starts = line_starts(text);
    let at = clamp_offset(text.len() as int, off);
    lemma_line_at_holds(starts, text.len() as int, at);
    let line = line_at(starts, at);
    lemma_starts_grow(starts, text.len() as int, line);
    assert(starts[line] <= text.len());
}

/// The line starts of a prefix are the line starts of the whole text that lie
/// within the prefix.
pub proof fn lemma_line_starts_prefix(text: Seq<char>, n: int)
    requires
        0 <= n <= text.len(),
    ensures
        line_starts(text.take(n)).len() <= line_starts(text).len(),
        forall|k: int|
            0 <= k < line_starts(text.take(n)).len() ==> line_starts(text.take(n))[k]
                == #[trigger] line_starts(text)[k],
        forall|k: int|
            line_starts(text.take(n)).len() <= k < line_starts(text).len()
                ==> #[trigger] line_starts(text)[k] > n,
    decreases text.len(),
{
    if n == text.len() {
        assert(text.take(n) =~= text);
    } else {
        let shorter = text.drop_last();
        assert(shorter.take(n) =~= text.take(n));
        lemma_line_starts_prefix(shorter, n);
    }
}

/// A location means the same in two texts that agree up to its offset.
pub proof fn lemma_prefix_position(a: Seq<char>, b: Seq<char>, n: int, p: Position)
    requires
        0 <= n <= a.len(),
        n <= b.len(),
        a.take(n) == b.take(n),
        valid_position(a, p),
        offset_of(a, p) <= n,
    ensures
        valid_position(b, p),
        offset_of(b, p) == offset_of(a, p),
{
    lemma_line_starts_prefix(a, n);
    lemma_line_starts_prefix(b, n);
    lemma_line_starts_ordered(a);
    lemma_line_starts_ordered(b);
    let shared = line_starts(a.take(n));
    let sa = line_starts(a);
    let sb = line_starts(b);
    let line = p.line as int;
    assert(sa[line] <= n);
    assert(line < shared.len());
    assert(sb[line] == shared[line]);
    assert(sa[line] == shared[line]);
    if line + 1 < sb.len() {
        if line + 1 < shared.len() {
            assert(sb[line + 1] == shared[line + 1]);
            assert(sa[line + 1] == shared[line + 1]);
        } else {
            assert(sb[line + 1] > n);
        }
    }
}

} // verus!

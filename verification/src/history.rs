//! The log of applied edits, from which edits are undone and redone.

use crate::buffer::{cut_out, splice_in, EditOp, TextBuffer};
use crate::position::{
    lemma_offset_in_text, lemma_prefix_position, offset_of, position_of, valid_position, Position,
};
use vstd::prelude::*;

verus! {

/// The location at which an edit begins.
pub open spec fn op_site(op: EditOp) -> Position {
    match op {
        EditOp::Insert { at, .. } => at,
        EditOp::Delete { from, .. } => from,
    }
}

/// The characters that an edit put in or took out.
pub open spec fn op_text(op: EditOp) -> Seq<char> {
    match op {
        EditOp::Insert { text, .. } => text@,
        EditOp::Delete { removed, .. } => removed@,
    }
}

/// `op` is an edit that turns the text `before` into the text `after`.
pub open spec fn op_links(before: Seq<char>, op: EditOp, after: Seq<char>) -> bool {
    let start = offset_of(before, op_site(op));
    let end = start + op_text(op).len();
    &&& valid_position(before, op_site(op))
    &&& match op {
        EditOp::Insert { .. } => after == splice_in(before, start, op_text(op)),
        EditOp::Delete { to, .. } => {
            &&& valid_position(before, to)
            &&& offset_of(before, to) == end
            &&& op_text(op) == before.subrange(start, end)
            &&& after == cut_out(before, start, end)
        },
    }
}

/// The text that undoing `op` makes of `after`.
pub open spec fn undo_text(after: Seq<char>, op: EditOp) -> Seq<char> {
    let start = offset_of(after, op_site(op));
    match op {
        EditOp::Insert { .. } => cut_out(after, start, start + op_text(op).len()),
        EditOp::Delete { .. } => splice_in(after, start, op_text(op)),
    }
}

/// The text that applying `op` once more makes of `before`.
pub open spec fn redo_text(before: Seq<char>, op: EditOp) -> Seq<char> {
    let start = offset_of(before, op_site(op));
    match op {
        EditOp::Insert { .. } => splice_in(before, start, op_text(op)),
        EditOp::Delete { .. } => cut_out(before, start, start + op_text(op).len()),
    }
}

/// Where the cursor goes when `op` is undone.
pub open spec fn undo_site(op: EditOp) -> Position {
    match op {
        EditOp::Insert { at, .. } => at,
        EditOp::Delete { to, .. } => to,
    }
}

/// Where the cursor goes when `op` is applied to `before` once more.
pub open spec fn redo_site(before: Seq<char>, op: EditOp) -> Position {
    match op {
        EditOp::Insert { at, .. } => position_of(
            redo_text(before, op),
            offset_of(before, at) + op_text(op).len(),
        ),
        EditOp::Delete { from, .. } => from,
    }
}

/// Every edit of `ops`, the last one first, can be undone from `text` on.
pub open spec fn undoable(text: Seq<char>, ops: Seq<EditOp>) -> bool
    decreases ops.len(),
{
    ops.len() == 0 || {
        let earlier = undo_text(text, ops.last());
        &&& op_links(earlier, ops.last(), text)
        &&& undoable(earlier, ops.drop_last())
    }
}

/// Every edit of `ops`, the last one first, can be applied again from `text`
/// on.
pub open spec fn redoable(text: Seq<char>, ops: Seq<EditOp>) -> bool
    decreases ops.len(),
{
    ops.len() == 0 || {
        let later = redo_text(text, ops.last());
        &&& op_links(text, ops.last(), later)
        &&& redoable(later, ops.drop_last())
    }
}

/// The text that is left when every edit of `ops` has been undone from `text`
/// on, the last one first.
pub open spec fn unwind(text: Seq<char>, ops: Seq<EditOp>) -> Seq<char>
    decreases ops.len(),
{
    if ops.len() == 0 {
        text
    } else {
        unwind(undo_text(text, ops.last()), ops.drop_last())
    }
}

/// An edit keeps its site, and undoing and redoing it lead back and forth
/// between the two texts that it links.
pub proof fn lemma_op_links(before: Seq<char>, op: EditOp, after: Seq<char>)
    requires
        op_links(before, op, after),
    ensures
        valid_position(after, op_site(op)),
        offset_of(after, op_site(op)) == offset_of(before, op_site(op)),
        0 <= offset_of(before, op_site(op)) <= before.len(),
        offset_of(before, op_site(op)) <= after.len(),
        op is Insert ==> offset_of(before, op_site(op)) + op_text(op).len() <= after.len(),
        op is Delete ==> offset_of(before, op_site(op)) + op_text(op).len() <= before.len(),
        undo_text(after, op) == before,
        redo_text(before, op) == after,
{
    let start = offset_of(before, op_site(op));
    lemma_offset_in_text(before, op_site(op));
    match op {
        EditOp::Insert { .. } => {},
        EditOp::Delete { to, .. } => {
            lemma_offset_in_text(before, to);
        },
    }
    assert(before.take(start) =~= after.take(start));
    lemma_prefix_position(before, after, start, op_site(op));
    assert(undo_text(after, op) =~= before);
    assert(redo_text(before, op) =~= after);
}

/// The text that the edits of `ops`, applied in order, make of `start`.
pub open spec fn replay(start: Seq<char>, ops: Seq<EditOp>) -> Seq<char>
    decreases ops.len(),
{
    if ops.len() == 0 {
        start
    } else {
        redo_text(replay(start, ops.drop_last()), ops.last())
    }
}

/// Each edit of `ops` is one that can be made on the text that the edits
/// before it made of `start`.
pub open spec fn applies(start: Seq<char>, ops: Seq<EditOp>) -> bool
    decreases ops.len(),
{
    ops.len() == 0 || {
        &&& applies(start, ops.drop_last())
        &&& op_links(replay(start, ops.drop_last()), ops.last(), replay(start, ops))
    }
}

/// Whatever insertions and deletions were made one after the other, undoing
/// all of them, the last one first, gives back the text they started from.
pub proof fn lemma_undoing_all_restores(start: Seq<char>, ops: Seq<EditOp>)
    requires
        applies(start, ops),
    ensures
        undoable(replay(start, ops), ops),
        unwind(replay(start, ops), ops) == start,
    decreases ops.len(),
{
    if ops.len() > 0 {
        let earlier = replay(start, ops.drop_last());
        lemma_undoing_all_restores(start, ops.drop_last());
        lemma_op_links(earlier, ops.last(), replay(start, ops));
    }
}

/// The edits that can be undone and those that can be redone, with the state
/// of the group of typed characters that is being gathered into one edit.
///
/// Single characters typed one behind the other, each within `window` ticks of
/// the one before and with nothing else in between, are gathered into one
/// edit, so that one undo takes out a typed word.
pub struct History {
    undo: Vec<EditOp>,
    redo: Vec<EditOp>,
    open: bool,
    last_time: u64,
    window: u64,
}

impl History {
    /// The edits that can be undone, the latest one last.
    pub closed spec fn undo_ops(&self) -> Seq<EditOp> {
        self.undo@
    }

    /// The edits that can be redone, the next one last.
    pub closed spec fn redo_ops(&self) -> Seq<EditOp> {
        self.redo@
    }

    /// Whether the next typed character may join the latest edit.
    pub closed spec fn group_open(&self) -> bool {
        self.open
    }

    /// The time of the latest recorded edit.
    pub closed spec fn last_time(&self) -> u64 {
        self.last_time
    }

    /// The longest pause between two typed characters of one group.
    pub closed spec fn window(&self) -> u64 {
        self.window
    }

    /// The log fits the text: its edits can be undone and redone from there.
    pub open spec fn tracks(&self, text: Seq<char>) -> bool {
        &&& undoable(text, self.undo_ops())
        &&& redoable(text, self.redo_ops())
    }

    /// The text from which the logged edits led to `text`.
    pub open spec fn origin(&self, text: Seq<char>) -> Seq<char> {
        unwind(text, self.undo_ops())
    }

    /// Whether a character typed at `site` at time `now`, with `after` as the
    /// text it made, joins the latest edit: that edit put in text which ends
    /// right before the character, the group is still open and the pause is
    /// within the window.
    pub open spec fn joins(&self, after: Seq<char>, site: Position, now: u64) -> bool {
        &&& self.group_open()
        &&& self.undo_ops().len() > 0
        &&& self.last_time() <= now
        &&& now - self.last_time() <= self.window()
        &&& self.undo_ops().last() is Insert
        &&& valid_position(after, op_site(self.undo_ops().last()))
        &&& valid_position(after, site)
        &&& offset_of(after, op_site(self.undo_ops().last())) + op_text(
            self.undo_ops().last(),
        ).len() == offset_of(after, site)
    }

    /// Whether `op`, applied at time `now` with `after` as its result, is a
    /// single typed character that joins the latest edit.
    pub open spec fn coalesces(&self, after: Seq<char>, op: EditOp, now: u64) -> bool {
        &&& op is Insert
        &&& op_text(op).len() == 1
        &&& self.joins(after, op_site(op), now)
    }

    /// An empty log that gathers typed characters no more than `window` ticks
    /// apart.
    pub fn new(window: u64) -> (history: History)
        ensures
            history.undo_ops().len() == 0,
            history.redo_ops().len() == 0,
            !history.group_open(),
            history.window() == window,
            history.last_time() == 0,
    {
        History { undo: Vec::new(), redo: Vec::new(), open: false, last_time: 0, window }
    }

    /// Forgets every edit.
    pub fn clear(&mut self)
        ensures
            final(self).undo_ops().len() == 0,
            final(self).redo_ops().len() == 0,
            !final(self).group_open(),
            final(self).window() == old(self).window(),
            final(self).last_time() == old(self).last_time(),
    {
        self.undo.clear();
        self.redo.clear();
        self.open = false;
    }

    /// The number of edits that can be undone.
    pub fn undo_depth(&self) -> (n: usize)
        ensures
            n == self.undo_ops().len(),
    {
        self.undo.len()
    }

    /// The number of edits that can be redone.
    pub fn redo_depth(&self) -> (n: usize)
        ensures
            n == self.redo_ops().len(),
    {
        self.redo.len()
    }

    /// Closes the group of typed characters: the next one starts a new edit.
    pub fn flush(&mut self)
        ensures
            !final(self).group_open(),
            final(self).undo_ops() == old(self).undo_ops(),
            final(self).redo_ops() == old(self).redo_ops(),
            final(self).window() == old(self).window(),
            final(self).last_time() == old(self).last_time(),
    {
        self.open = false;
    }

    /// Decides whether `op` joins the latest edit.
    fn joins_latest(&self, op: &EditOp, now: u64, buffer: &TextBuffer) -> (joins: bool)
        requires
            buffer.wf(),
        ensures
            joins == self.coalesces(buffer@, *op, now),
    {
        let count: usize = self.undo.len();
        if !self.open || count == 0 || self.last_time > now || now - self.last_time
            > self.window {
            return false;
        }
        match (&self.undo[count - 1], op) {
            (EditOp::Insert { at: first, text: typed }, EditOp::Insert { at, text }) => {
                if text.len() != 1 {
                    return false;
                }
                match (buffer.offset_of(*first), buffer.offset_of(*at)) {
                    (Some(start), Some(here)) => start <= here && here - start == typed.len(),
                    _ => false,
                }
            },
            _ => false,
        }
    }

    /// Logs `op`, which has just made the text of `buffer`, at time `now`, and
    /// forgets what could be redone. A typed character that joins the latest
    /// edit extends it; any other edit is logged on its own.
    pub fn record(&mut self, op: EditOp, now: u64, buffer: &TextBuffer)
        requires
            buffer.wf(),
            op_links(undo_text(buffer@, op), op, buffer@),
            undoable(undo_text(buffer@, op), old(self).undo_ops()),
        ensures
            final(self).tracks(buffer@),
            final(self).redo_ops().len() == 0,
            final(self).origin(buffer@) == unwind(undo_text(buffer@, op), old(self).undo_ops()),
            final(self).group_open() == (op is Insert && op_text(op).len() == 1),
            final(self).last_time() == now,
            final(self).window() == old(self).window(),
            old(self).coalesces(buffer@, op, now) ==> {
                &&& final(self).undo_ops().len() == old(self).undo_ops().len()
                &&& final(self).undo_ops().drop_last() == old(self).undo_ops().drop_last()
                &&& final(self).undo_ops().last() is Insert
                &&& op_site(final(self).undo_ops().last()) == op_site(old(self).undo_ops().last())
                &&& op_text(final(self).undo_ops().last()) == op_text(old(self).undo_ops().last())
                    + op_text(op)
            },
            !old(self).coalesces(buffer@, op, now) ==> final(self).undo_ops() == old(self).undo_ops().push(op),
    {
        let ghost after = buffer@;
        let ghost before = undo_text(after, op);
        let ghost logged = self.undo@;
        let joins = self.joins_latest(&op, now, buffer);
        let single = match &op {
            EditOp::Insert { at: _, text } => text.len() == 1,
            EditOp::Delete { .. } => false,
        };
        if joins {
            let latest = self.undo.pop();
            match (latest, op) {
                (
                    Some(EditOp::Insert { at: first, text: typed }),
                    EditOp::Insert { at, text },
                ) => {
                    let ghost top = logged.last();
                    let ghost start = offset_of(after, first);
                    let ghost here = offset_of(after, at);
                    let ghost base = undo_text(before, top);
                    let mut joined = typed;
                    joined.push(text[0]);
                    let merged = EditOp::Insert { at: first, text: joined };
                    proof {
                        lemma_op_links(before, op, after);
                        lemma_op_links(base, top, before);
                        assert(after.take(here) =~= before.take(here));
                        lemma_prefix_position(after, before, here, first);
                        assert(op_text(merged) =~= typed@ + text@);
                        assert(after =~= splice_in(base, start, op_text(merged)));
                        lemma_op_links(base, merged, after);
                        assert(self.undo@ =~= logged.drop_last());
                    }
                    self.undo.push(merged);
                    proof {
                        assert(self.undo@.drop_last() =~= logged.drop_last());
                    }
                },
                // An edit joins only an insertion, so these two do not occur.
                (Some(other), op) => {
                    self.undo.push(other);
                    self.undo.push(op);
                },
                (None, op) => {
                    self.undo.push(op);
                },
            }
        } else {
            self.undo.push(op);
            proof {
                assert(self.undo@.drop_last() =~= logged);
            }
        }
        self.redo.clear();
        self.open = single;
        self.last_time = now;
    }

    /// Undoes the latest edit on `buffer` and returns where the cursor
    /// belongs then; with nothing to undo, changes nothing and returns `None`.
    pub fn undo(&mut self, buffer: &mut TextBuffer) -> (site: Option<Position>)
        requires
            old(buffer).wf(),
            old(self).tracks(old(buffer)@),
        ensures
            final(buffer).wf(),
            final(self).tracks(final(buffer)@),
            final(self).origin(final(buffer)@) == old(self).origin(old(buffer)@),
            !final(self).group_open(),
            final(self).window() == old(self).window(),
            final(self).last_time() == old(self).last_time(),
            site is Some <==> old(self).undo_ops().len() > 0,
            site is None ==> {
                &&& final(buffer)@ == old(buffer)@
                &&& final(self).undo_ops() == old(self).undo_ops()
                &&& final(self).redo_ops() == old(self).redo_ops()
            },
            site is Some ==> {
                let op = old(self).undo_ops().last();
                &&& final(buffer)@ == undo_text(old(buffer)@, op)
                &&& final(self).undo_ops() == old(self).undo_ops().drop_last()
                &&& final(self).redo_ops() == old(self).redo_ops().push(op)
                &&& site == Some(undo_site(op))
                &&& valid_position(final(buffer)@, undo_site(op))
            },
    {
        self.open = false;
        match self.undo.pop() {
            None => None,
            Some(op) => {
                let ghost after = buffer@;
                let ghost before = undo_text(after, op);
                proof {
                    lemma_op_links(before, op, after);
                    assert(self.undo@ =~= old(self).undo@.drop_last());
                }
                let site = match &op {
                    EditOp::Insert { at, text } => {
                        let start: usize = buffer.offset_at(*at);
                        // The text holds what was put in, so its end fits a `usize`.
                        let total: usize = buffer.len();
                        let end: usize = start + text.len();
                        let _ = buffer.remove_range(start, end);
                        *at
                    },
                    EditOp::Delete { from, to, removed } => {
                        let start: usize = buffer.offset_at(*from);
                        buffer.insert_at(start, removed);
                        *to
                    },
                };
                self.redo.push(op);
                proof {
                    assert(self.redo@.drop_last() =~= old(self).redo@);
                }
                Some(site)
            },
        }
    }

    /// Applies the edit that was undone last to `buffer` once more and
    /// returns where the cursor belongs then; with nothing to redo, changes
    /// nothing and returns `None`.
    pub fn redo(&mut self, buffer: &mut TextBuffer) -> (site: Option<Position>)
        requires
            old(buffer).wf(),
            old(self).tracks(old(buffer)@),
        ensures
            final(buffer).wf(),
            final(self).tracks(final(buffer)@),
            final(self).origin(final(buffer)@) == old(self).origin(old(buffer)@),
            !final(self).group_open(),
            final(self).window() == old(self).window(),
            final(self).last_time() == old(self).last_time(),
            site is Some <==> old(self).redo_ops().len() > 0,
            site is None ==> {
                &&& final(buffer)@ == old(buffer)@
                &&& final(self).undo_ops() == old(self).undo_ops()
                &&& final(self).redo_ops() == old(self).redo_ops()
            },
            site is Some ==> {
                let op = old(self).redo_ops().last();
                &&& final(buffer)@ == redo_text(old(buffer)@, op)
                &&& final(self).redo_ops() == old(self).redo_ops().drop_last()
                &&& final(self).undo_ops() == old(self).undo_ops().push(op)
                &&& site == Some(redo_site(old(buffer)@, op))
                &&& valid_position(final(buffer)@, redo_site(old(buffer)@, op))
            },
    {
        self.open = false;
        match self.redo.pop() {
            None => None,
            Some(op) => {
                let ghost before = buffer@;
                let ghost after = redo_text(before, op);
                proof {
                    lemma_op_links(before, op, after);
                    assert(self.redo@ =~= old(self).redo@.drop_last());
                }
                let site = match &op {
                    EditOp::Insert { at, text } => {
                        let start: usize = buffer.offset_at(*at);
                        buffer.insert_at(start, text);
                        // The new length fits a `usize`, so the end of the text does.
                        let total: usize = buffer.len();
                        buffer.position_of(start + text.len())
                    },
                    EditOp::Delete { from, to, removed } => {
                        let start: usize = buffer.offset_at(*from);
                        // The text holds what goes out, so its end fits a `usize`.
                        let total: usize = buffer.len();
                        let _ = buffer.remove_range(start, start + removed.len());
                        *from
                    },
                };
                self.undo.push(op);
                proof {
                    assert(self.undo@.drop_last() =~= old(self).undo@);
                }
                Some(site)
            },
        }
    }
}

} // verus!

//! The editing session: one document, its cursor and its edit log, driven by
//! actions.

use crate::buffer::{append_chars, cut_out, splice_in, EditOp, TextBuffer};
use crate::cursor::{clamp_position, goal_column, move_target, Cursor, Direction};
use crate::history::{
    lemma_op_links, op_site, op_text, redo_site, redo_text, undo_site, undo_text, History,
};
use crate::position::{
    lemma_line_starts_ordered, lemma_offset_in_text, lemma_position_of_valid, line_starts,
    offset_of, position_of, Position,
};
use vstd::prelude::*;

verus! {

/// What a user can do to the document.
#[derive(Clone, Debug, PartialEq, Eq)]
pub enum Action {
    /// Types a character in place of the selection.
    Insert(char),
    /// Puts text in place of the selection.
    Paste(Vec<char>),
    /// Deletes the selection, or the character before the cursor.
    Backspace,
    /// Deletes the selection, or the character behind the cursor.
    Delete,
    /// Moves the cursor and drops the selection.
    Move(Direction),
    /// Moves the cursor and keeps the anchor.
    Select(Direction),
    /// Puts the cursor at a location.
    Click(Position),
    /// Undoes the latest edit.
    Undo,
    /// Redoes the edit that was undone last.
    Redo,
}

impl Action {
    /// Whether the action is one of the four that edit the text.
    pub fn is_edit(&self) -> (yes: bool)
        ensures
            yes == is_edit(*self),
    {
        match self {
            Action::Insert(_) | Action::Paste(_) | Action::Backspace | Action::Delete => true,
            _ => false,
        }
    }
}

/// What a view needs after an action: the selection, the dirty flag and the
/// number of lines. The text itself is had from `snapshot`.
#[derive(Clone, Copy, Debug, PartialEq, Eq, Structural)]
pub struct ViewState {
    pub anchor: Position,
    pub cursor: Position,
    pub dirty: bool,
    pub line_count: usize,
}

/// The document as it stands: its text, the cursor and the dirty flag.
#[derive(Clone, Debug, PartialEq, Eq)]
pub struct Snapshot {
    pub text: Vec<char>,
    pub cursor: Position,
    pub dirty: bool,
}

/// The offset at which the selection of `cursor` begins in `text`.
pub open spec fn sel_from(text: Seq<char>, cursor: Cursor) -> int {
    if offset_of(text, cursor.anchor) <= offset_of(text, cursor.head) {
        offset_of(text, cursor.anchor)
    } else {
        offset_of(text, cursor.head)
    }
}

/// The offset at which the selection of `cursor` ends in `text`.
pub open spec fn sel_to(text: Seq<char>, cursor: Cursor) -> int {
    if offset_of(text, cursor.anchor) <= offset_of(text, cursor.head) {
        offset_of(text, cursor.head)
    } else {
        offset_of(text, cursor.anchor)
    }
}

/// Whether `action` is one of the four that edit the text.
pub open spec fn is_edit(action: Action) -> bool {
    action is Insert || action is Paste || action is Backspace || action is Delete
}

/// The characters that `action` puts in.
pub open spec fn typed_text(action: Action) -> Seq<char> {
    match action {
        Action::Insert(c) => seq![c],
        Action::Paste(text) => text@,
        _ => Seq::<char>::empty(),
    }
}

/// The offset from which an editing `action` takes characters out.
pub open spec fn cut_from(text: Seq<char>, cursor: Cursor, action: Action) -> int {
    let from = sel_from(text, cursor);
    if from == sel_to(text, cursor) && action is Backspace && from > 0 {
        from - 1
    } else {
        from
    }
}

/// The offset up to which an editing `action` takes characters out.
pub open spec fn cut_to(text: Seq<char>, cursor: Cursor, action: Action) -> int {
    let to = sel_to(text, cursor);
    if sel_from(text, cursor) == to && action is Delete && to < text.len() {
        to + 1
    } else {
        to
    }
}

/// The text that an editing `action` makes of `text`: the selection, or the
/// one character that Backspace or Delete aims at, goes, and what the action
/// puts in takes its place.
pub open spec fn text_after(text: Seq<char>, cursor: Cursor, action: Action) -> Seq<char> {
    let from = cut_from(text, cursor, action);
    let to = cut_to(text, cursor, action);
    splice_in(cut_out(text, from, to), from, typed_text(action))
}

/// The offset at which the cursor stands after an editing `action`.
pub open spec fn caret_after(text: Seq<char>, cursor: Cursor, action: Action) -> int {
    cut_from(text, cursor, action) + typed_text(action).len()
}

/// Whether an editing `action` changes anything: it takes something out or
/// puts something in.
pub open spec fn alters(text: Seq<char>, cursor: Cursor, action: Action) -> bool {
    is_edit(action) && (cut_from(text, cursor, action) < cut_to(text, cursor, action)
        || typed_text(action).len() > 0)
}

/// The cursor stands at the start of the document, with nothing selected and
/// no column remembered.
pub open spec fn at_start(cursor: Cursor) -> bool {
    &&& cursor.head == (Position { line: 0, column: 0 })
    &&& cursor.anchor == cursor.head
    &&& cursor.goal is None
}

/// The log holds no edit, and the next typed character starts one.
pub open spec fn log_empty(log: History) -> bool {
    &&& log.undo_ops().len() == 0
    &&& log.redo_ops().len() == 0
    &&& !log.group_open()
}

/// `session` is a session on an empty document that has never been saved,
/// with `window` as the longest pause between typed characters that are
/// undone together.
pub open spec fn fresh(session: EditorSession, window: u64) -> bool {
    &&& session.text() == Seq::<char>::empty()
    &&& session.is_dirty()
    &&& at_start(session.cursor())
    &&& log_empty(session.history())
    &&& session.history().window() == window
    &&& session.history().last_time() == 0
}

/// `after` is what loading `text` makes of `before`: the text is the
/// document, clean, with the cursor at its start and nothing to undo or redo.
pub open spec fn loaded(before: EditorSession, text: Seq<char>, after: EditorSession) -> bool {
    &&& after.text() == text
    &&& !after.is_dirty()
    &&& at_start(after.cursor())
    &&& log_empty(after.history())
    &&& after.history().window() == before.history().window()
    &&& after.history().last_time() == before.history().last_time()
}

/// `ops` is `base` with one more edit on top: the deletion of what stood
/// between offsets `from` and `to` of `text`.
pub open spec fn logs_cut(
    base: Seq<EditOp>,
    ops: Seq<EditOp>,
    text: Seq<char>,
    from: int,
    to: int,
) -> bool {
    &&& ops.len() == base.len() + 1
    &&& ops.drop_last() == base
    &&& ops.last() is Delete
    &&& op_site(ops.last()) == position_of(text, from)
    &&& undo_site(ops.last()) == position_of(text, to)
    &&& op_text(ops.last()) == text.subrange(from, to)
}

/// `ops` is what the log `log` holds after `typed` was put in at offset `at`
/// of `text` at time `now`, which made `after`: a single character that joins
/// the latest edit has extended it, and anything else is a new edit on top.
pub open spec fn logs_put(
    log: History,
    ops: Seq<EditOp>,
    text: Seq<char>,
    after: Seq<char>,
    at: int,
    typed: Seq<char>,
    now: u64,
) -> bool {
    let site = position_of(text, at);
    let base = log.undo_ops();
    &&& ops.len() > 0
    &&& ops.last() is Insert
    &&& if typed.len() == 1 && log.joins(after, site, now) {
        &&& ops.len() == base.len()
        &&& ops.drop_last() == base.drop_last()
        &&& op_site(ops.last()) == op_site(base.last())
        &&& op_text(ops.last()) == op_text(base.last()) + typed
    } else {
        &&& ops.len() == base.len() + 1
        &&& ops.drop_last() == base
        &&& op_site(ops.last()) == site
        &&& op_text(ops.last()) == typed
    }
}

/// `ops` is what the log of `before` holds after the editing `action` at time
/// `now`, which made the text `after`: first the deletion, if the action took
/// anything out, then the insertion, if it put anything in.
pub open spec fn logs_edit(
    before: EditorSession,
    ops: Seq<EditOp>,
    after: Seq<char>,
    action: Action,
    now: u64,
) -> bool {
    let text = before.text();
    let from = cut_from(text, before.cursor(), action);
    let to = cut_to(text, before.cursor(), action);
    let typed = typed_text(action);
    let base = before.history().undo_ops();
    if from < to && typed.len() > 0 {
        &&& ops.len() == base.len() + 2
        &&& logs_cut(base, ops.drop_last(), text, from, to)
        &&& ops.last() is Insert
        &&& op_site(ops.last()) == position_of(cut_out(text, from, to), from)
        &&& op_text(ops.last()) == typed
    } else if from < to {
        logs_cut(base, ops, text, from, to)
    } else if typed.len() > 0 {
        logs_put(before.history(), ops, text, after, from, typed, now)
    } else {
        ops == base
    }
}

/// The log `after` holds the edits of `before`, with the group of typed
/// characters closed.
pub open spec fn log_kept(before: History, after: History) -> bool {
    &&& after.undo_ops() == before.undo_ops()
    &&& after.redo_ops() == before.redo_ops()
    &&& after.window() == before.window()
    &&& after.last_time() == before.last_time()
    &&& !after.group_open()
}

/// `after` is what the editing `action`, carried out at time `now`, makes of
/// `before`.
pub open spec fn edited(
    before: EditorSession,
    action: Action,
    now: u64,
    after: EditorSession,
) -> bool {
    let changes = alters(before.text(), before.cursor(), action);
    &&& after.text() == text_after(before.text(), before.cursor(), action)
    &&& after.cursor().head == position_of(
        after.text(),
        caret_after(before.text(), before.cursor(), action),
    )
    &&& after.cursor().anchor == after.cursor().head
    &&& after.cursor().goal is None
    &&& after.is_dirty() == (before.is_dirty() || changes)
    &&& after.origin() == before.origin()
    &&& after.history().window() == before.history().window()
    &&& after.history().group_open() == (typed_text(action).len() == 1)
    &&& changes ==> after.history().redo_ops().len() == 0 && after.history().last_time() == now
    &&& !changes ==> log_kept(before.history(), after.history())
    &&& after.history().undo_ops().len() == before.history().undo_ops().len()
        + before.ops_logged(after.text(), action, now)
    &&& logs_edit(before, after.history().undo_ops(), after.text(), action, now)
}

/// `after` is what a move of the cursor in `direction` makes of `before`;
/// with `extend` the anchor stays.
pub open spec fn moved(
    before: EditorSession,
    direction: Direction,
    extend: bool,
    after: EditorSession,
) -> bool {
    &&& after.text() == before.text()
    &&& after.is_dirty() == before.is_dirty()
    &&& log_kept(before.history(), after.history())
    &&& after.cursor().head == move_target(
        before.text(),
        before.cursor().head,
        before.cursor().goal,
        direction,
    )
    &&& after.cursor().anchor == if extend {
        before.cursor().anchor
    } else {
        after.cursor().head
    }
    &&& after.cursor().goal == if direction == Direction::Up || direction == Direction::Down {
        Some(goal_column(before.cursor().head, before.cursor().goal))
    } else {
        None::<usize>
    }
}

/// `after` is what a click at `position` makes of `before`.
pub open spec fn clicked(before: EditorSession, position: Position, after: EditorSession) -> bool {
    &&& after.text() == before.text()
    &&& after.is_dirty() == before.is_dirty()
    &&& log_kept(before.history(), after.history())
    &&& after.cursor().head == clamp_position(before.text(), position)
    &&& after.cursor().anchor == after.cursor().head
    &&& after.cursor().goal is None
}

/// `after` is what an undo makes of `before`, and `done` says whether there
/// was an edit to undo.
pub open spec fn undone(before: EditorSession, after: EditorSession, done: bool) -> bool {
    let op = before.history().undo_ops().last();
    &&& done == (before.history().undo_ops().len() > 0)
    &&& after.is_dirty() == (before.is_dirty() || done)
    &&& after.origin() == before.origin()
    &&& !done ==> {
        &&& after.text() == before.text()
        &&& after.cursor() == before.cursor()
        &&& log_kept(before.history(), after.history())
    }
    &&& done ==> {
        &&& after.text() == undo_text(before.text(), op)
        &&& after.cursor().head == undo_site(op)
        &&& after.cursor().anchor == after.cursor().head
        &&& after.cursor().goal is None
        &&& after.history().undo_ops() == before.history().undo_ops().drop_last()
        &&& after.history().redo_ops() == before.history().redo_ops().push(op)
        &&& after.history().window() == before.history().window()
        &&& after.history().last_time() == before.history().last_time()
        &&& !after.history().group_open()
    }
}

/// `after` is what a redo makes of `before`, and `done` says whether there
/// was an edit to redo.
pub open spec fn redone(before: EditorSession, after: EditorSession, done: bool) -> bool {
    let op = before.history().redo_ops().last();
    &&& done == (before.history().redo_ops().len() > 0)
    &&& after.is_dirty() == (before.is_dirty() || done)
    &&& after.origin() == before.origin()
    &&& !done ==> {
        &&& after.text() == before.text()
        &&& after.cursor() == before.cursor()
        &&& log_kept(before.history(), after.history())
    }
    &&& done ==> {
        &&& after.text() == redo_text(before.text(), op)
        &&& after.cursor().head == redo_site(before.text(), op)
        &&& after.cursor().anchor == after.cursor().head
        &&& after.cursor().goal is None
        &&& after.history().redo_ops() == before.history().redo_ops().drop_last()
        &&& after.history().undo_ops() == before.history().undo_ops().push(op)
        &&& after.history().window() == before.history().window()
        &&& after.history().last_time() == before.history().last_time()
        &&& !after.history().group_open()
    }
}

/// `after` is what `action`, carried out at time `now`, makes of `before`.
pub open spec fn stepped(
    before: EditorSession,
    action: Action,
    now: u64,
    after: EditorSession,
) -> bool {
    match action {
        Action::Move(direction) => moved(before, direction, false, after),
        Action::Select(direction) => moved(before, direction, true, after),
        Action::Click(position) => clicked(before, position, after),
        Action::Undo => undone(before, after, before.history().undo_ops().len() > 0),
        Action::Redo => redone(before, after, before.history().redo_ops().len() > 0),
        _ => edited(before, action, now, after),
    }
}

/// Every action leaves the session's origin as it was: the text to which
/// undoing everything leads back.
pub proof fn lemma_step_keeps_origin(
    before: EditorSession,
    action: Action,
    now: u64,
    after: EditorSession,
)
    requires
        stepped(before, action, now, after),
    ensures
        after.origin() == before.origin(),
{
}

/// When nothing is left to undo, the text is the session's origin.
pub proof fn lemma_drained_is_origin(session: EditorSession)
    requires
        session.history().undo_ops().len() == 0,
    ensures
        session.text() == session.origin(),
{
}

/// An action that changes the text leaves the session dirty.
pub proof fn lemma_change_sets_dirty(
    before: EditorSession,
    action: Action,
    now: u64,
    after: EditorSession,
)
    requires
        before.wf(),
        stepped(before, action, now, after),
        after.text() != before.text(),
    ensures
        after.is_dirty(),
{
    if is_edit(action) && !alters(before.text(), before.cursor(), action) {
        let from = cut_from(before.text(), before.cursor(), action);
        lemma_offset_in_text(before.text(), before.cursor().anchor);
        lemma_offset_in_text(before.text(), before.cursor().head);
        assert(text_after(before.text(), before.cursor(), action) =~= before.text());
    }
}

/// An undo followed by a redo leaves the text as it was.
pub proof fn lemma_redo_reverts_undo(
    before: EditorSession,
    middle: EditorSession,
    after: EditorSession,
    done: bool,
)
    requires
        before.wf(),
        undone(before, middle, true),
        redone(middle, after, done),
    ensures
        done,
        after.text() == before.text(),
        after.history().undo_ops() == before.history().undo_ops(),
        after.history().redo_ops() == before.history().redo_ops(),
{
    let ops = before.history().undo_ops();
    let op = ops.last();
    let pending = before.history().redo_ops();
    assert(pending.push(op).last() == op);
    assert(pending.push(op).drop_last() =~= pending);
    assert(ops.drop_last().push(op) =~= ops);
    lemma_op_links(undo_text(before.text(), op), op, before.text());
}

/// After an edit that changed something nothing can be redone: a redo then
/// reports that it did nothing, and leaves text, cursor and log as they are.
pub proof fn lemma_edit_ends_redo(
    before: EditorSession,
    action: Action,
    now: u64,
    after: EditorSession,
    last: EditorSession,
    done: bool,
)
    requires
        edited(before, action, now, after),
        alters(before.text(), before.cursor(), action),
        redone(after, last, done),
    ensures
        !done,
        last.text() == after.text(),
        last.cursor() == after.cursor(),
        last.is_dirty() == after.is_dirty(),
        last.history().undo_ops() == after.history().undo_ops(),
        last.history().redo_ops().len() == 0,
{
}

/// One open document: its text, the selection, the edit log and the dirty
/// flag.
pub struct EditorSession {
    buffer: TextBuffer,
    cursor: Cursor,
    history: History,
    dirty: bool,
}

impl EditorSession {
    /// The document's characters.
    pub closed spec fn text(&self) -> Seq<char> {
        self.buffer@
    }

    /// The selection and the column that vertical moves aim for.
    pub closed spec fn cursor(&self) -> Cursor {
        self.cursor
    }

    /// The edit log.
    pub closed spec fn history(&self) -> History {
        self.history
    }

    /// Whether the text has been edited since it was loaded or saved.
    pub closed spec fn is_dirty(&self) -> bool {
        self.dirty
    }

    /// The buffer's line index fits its text.
    pub closed spec fn buffer_wf(&self) -> bool {
        self.buffer.wf()
    }

    /// The parts fit together: the selection lies in the text, and the log's
    /// edits can be undone and redone from the text as it stands.
    pub open spec fn wf(&self) -> bool {
        &&& self.buffer_wf()
        &&& self.cursor().wf(self.text())
        &&& self.history().tracks(self.text())
    }

    /// The text as it was when the session was made or last loaded: what is
    /// left when every logged edit is undone.
    pub open spec fn origin(&self) -> Seq<char> {
        self.history().origin(self.text())
    }

    /// The number of edits that an editing `action` at time `now` adds to the
    /// log, given the text `after` that it makes: one for what it takes out,
    /// and one for what it puts in unless that is a single character that
    /// joins the latest edit.
    pub open spec fn ops_logged(&self, after: Seq<char>, action: Action, now: u64) -> int {
        let from = cut_from(self.text(), self.cursor(), action);
        let removes = from < cut_to(self.text(), self.cursor(), action);
        let typed = typed_text(action);
        let joined = !removes && typed.len() == 1 && self.history().joins(
            after,
            position_of(self.text(), from),
            now,
        );
        (if removes { 1int } else { 0int }) + (if typed.len() == 0 || joined { 0int } else { 1int })
    }

    /// A session on an empty document that has never been saved. Typed
    /// characters no more than `window` ticks apart are undone together.
    pub fn new(window: u64) -> (session: EditorSession)
        ensures
            session.wf(),
            fresh(session, window),
            session.origin() == Seq::<char>::empty(),
    {
        let buffer = TextBuffer::new();
        let mut cursor = Cursor::new();
        cursor.set(&buffer, Position { line: 0, column: 0 });
        proof {
            lemma_position_of_valid(buffer@, 0);
            lemma_line_starts_ordered(buffer@);
        }
        EditorSession { buffer, cursor, history: History::new(window), dirty: true }
    }

    /// Makes `text` the document: the log is emptied, the dirty flag cleared
    /// and the cursor put at the start.
    pub fn load(&mut self, text: Vec<char>)
        ensures
            final(self).wf(),
            loaded(*old(self), text@, *final(self)),
            final(self).origin() == text@,
    {
        self.buffer.replace_all(text);
        self.history.clear();
        self.dirty = false;
        self.cursor.set(&self.buffer, Position { line: 0, column: 0 });
        proof {
            lemma_line_starts_ordered(self.buffer@);
        }
    }

    /// Notes that the text has been saved: clears the dirty flag and nothing
    /// else.
    pub fn mark_persisted(&mut self)
        ensures
            !final(self).is_dirty(),
            final(self).text() == old(self).text(),
            final(self).cursor() == old(self).cursor(),
            final(self).history() == old(self).history(),
            final(self).wf() == old(self).wf(),
    {
        self.dirty = false;
    }

    /// The text, the cursor and the dirty flag, as they stand.
    pub fn snapshot(&self) -> (snap: Snapshot)
        ensures
            snap.text@ == self.text(),
            snap.cursor == self.cursor().head,
            snap.dirty == self.is_dirty(),
    {
        let mut text: Vec<char> = Vec::new();
        append_chars(&mut text, self.buffer.chars());
        assert(text@ =~= self.buffer@);
        Snapshot { text, cursor: self.cursor.head, dirty: self.dirty }
    }

    /// What a view needs to show the session.
    pub fn view_state(&self) -> (state: ViewState)
        requires
            self.wf(),
        ensures
            state.anchor == self.cursor().anchor,
            state.cursor == self.cursor().head,
            state.dirty == self.is_dirty(),
            state.line_count == line_starts(self.text()).len(),
    {
        ViewState {
            anchor: self.cursor.anchor,
            cursor: self.cursor.head,
            dirty: self.dirty,
            line_count: self.buffer.line_count(),
        }
    }

    /// The number of edits that can be undone.
    pub fn undo_depth(&self) -> (n: usize)
        ensures
            n == self.history().undo_ops().len(),
    {
        self.history.undo_depth()
    }

    /// The number of edits that can be redone.
    pub fn redo_depth(&self) -> (n: usize)
        ensures
            n == self.history().redo_ops().len(),
    {
        self.history.redo_depth()
    }

    /// Takes out the characters from offset `from` up to offset `to`, logs
    /// that, and leaves the cursor where they were.
    fn remove_span(&mut self, from: usize, to: usize, now: u64)
        requires
            old(self).wf(),
            from < to <= old(self).text().len(),
        ensures
            final(self).wf(),
            final(self).text() == cut_out(old(self).text(), from as int, to as int),
            final(self).cursor().head == position_of(final(self).text(), from as int),
            final(self).cursor().anchor == final(self).cursor().head,
            final(self).cursor().goal is None,
            final(self).is_dirty(),
            final(self).origin() == old(self).origin(),
            final(self).history().redo_ops().len() == 0,
            logs_cut(
                old(self).history().undo_ops(),
                final(self).history().undo_ops(),
                old(self).text(),
                from as int,
                to as int,
            ),
            !final(self).history().group_open(),
            final(self).history().last_time() == now,
            final(self).history().window() == old(self).history().window(),
    {
        let ghost before = self.buffer@;
        let start = self.buffer.position_of(from);
        let end = self.buffer.position_of(to);
        let removed = self.buffer.remove_range(from, to);
        let op = EditOp::Delete { from: start, to: end, removed };
        proof {
            lemma_op_links(before, op, self.buffer@);
        }
        self.history.record(op, now, &self.buffer);
        proof {
            assert(old(self).history.undo_ops().push(op).drop_last() =~= old(self).history.undo_ops());
        }
        let here = self.buffer.position_of(from);
        self.cursor.collapse_to(here);
        self.dirty = true;
    }

    /// Puts `text` in at offset `at`, logs that, and leaves the cursor behind
    /// it.
    fn put_text(&mut self, at: usize, text: Vec<char>, now: u64)
        requires
            old(self).wf(),
            at <= old(self).text().len(),
            text@.len() > 0,
        ensures
            final(self).wf(),
            final(self).text() == splice_in(old(self).text(), at as int, text@),
            final(self).cursor().head == position_of(final(self).text(), at + text@.len()),
            final(self).cursor().anchor == final(self).cursor().head,
            final(self).cursor().goal is None,
            final(self).is_dirty(),
            final(self).origin() == old(self).origin(),
            final(self).history().redo_ops().len() == 0,
            logs_put(
                old(self).history(),
                final(self).history().undo_ops(),
                old(self).text(),
                final(self).text(),
                at as int,
                text@,
                now,
            ),
            final(self).history().group_open() == (text@.len() == 1),
            final(self).history().last_time() == now,
            final(self).history().window() == old(self).history().window(),
    {
        let ghost before = self.buffer@;
        let site = self.buffer.position_of(at);
        self.buffer.insert_at(at, &text);
        // The new length fits a `usize`, so the end of what was put in does.
        let total: usize = self.buffer.len();
        let end: usize = at + text.len();
        let op = EditOp::Insert { at: site, text };
        proof {
            lemma_op_links(before, op, self.buffer@);
        }
        self.history.record(op, now, &self.buffer);
        proof {
            assert(old(self).history.undo_ops().push(op).drop_last() =~= old(self).history.undo_ops());
        }
        let here = self.buffer.position_of(end);
        self.cursor.collapse_to(here);
        self.dirty = true;
    }

    /// The offsets at which the selection begins and ends.
    fn selection_offsets(&self) -> (span: (usize, usize))
        requires
            self.wf(),
        ensures
            span.0 == sel_from(self.text(), self.cursor()),
            span.1 == sel_to(self.text(), self.cursor()),
            span.0 <= span.1 <= self.text().len(),
    {
        let a: usize = self.buffer.offset_at(self.cursor.anchor);
        let b: usize = self.buffer.offset_at(self.cursor.head);
        if a <= b {
            (a, b)
        } else {
            (b, a)
        }
    }

    /// Carries out one of the four editing actions at time `now`.
    fn edit(&mut self, action: Action, now: u64)
        requires
            old(self).wf(),
            is_edit(action),
        ensures
            final(self).wf(),
            edited(*old(self), action, now, *final(self)),
    {
        let ghost before = self.buffer@;
        let (sel_start, sel_end) = self.selection_offsets();
        let len: usize = self.buffer.len();
        let mut from: usize = sel_start;
        let mut to: usize = sel_end;
        let text: Vec<char> = match action {
            Action::Insert(c) => {
                let mut typed: Vec<char> = Vec::new();
                typed.push(c);
                assert(typed@ =~= seq![c]);
                typed
            },
            Action::Paste(text) => text,
            Action::Backspace => {
                if from == to && from > 0 {
                    from = from - 1;
                }
                Vec::new()
            },
            _ => {
                if from == to && to < len {
                    to = to + 1;
                }
                Vec::new()
            },
        };
        if from < to {
            self.remove_span(from, to, now);
        }
        if text.len() > 0 {
            self.put_text(from, text, now);
            proof {
                assert(self.buffer@ =~= text_after(before, old(self).cursor(), action));
            }
        } else {
            self.history.flush();
            let here = self.buffer.position_of(from);
            self.cursor.collapse_to(here);
            proof {
                assert(self.buffer@ =~= text_after(before, old(self).cursor(), action));
            }
        }
    }

    /// Undoes the latest edit and puts the cursor where it took place; returns
    /// whether there was one.
    pub fn undo(&mut self) -> (done: bool)
        requires
            old(self).wf(),
        ensures
            final(self).wf(),
            undone(*old(self), *final(self), done),
    {
        match self.history.undo(&mut self.buffer) {
            Some(site) => {
                self.cursor.collapse_to(site);
                self.dirty = true;
                true
            },
            None => false,
        }
    }

    /// Applies the edit that was undone last once more and puts the cursor
    /// behind it; returns whether there was one.
    pub fn redo(&mut self) -> (done: bool)
        requires
            old(self).wf(),
        ensures
            final(self).wf(),
            redone(*old(self), *final(self), done),
    {
        match self.history.redo(&mut self.buffer) {
            Some(site) => {
                self.cursor.collapse_to(site);
                self.dirty = true;
                true
            },
            None => false,
        }
    }

    /// Undoes every logged edit, the latest first, which leaves the text as
    /// it was when the session was made or last loaded; returns how many
    /// edits were undone.
    pub fn undo_all(&mut self) -> (count: usize)
        requires
            old(self).wf(),
        ensures
            final(self).wf(),
            final(self).text() == old(self).origin(),
            final(self).origin() == old(self).origin(),
            final(self).history().undo_ops().len() == 0,
            count == old(self).history().undo_ops().len(),
    {
        let mut count: usize = 0;
        let total: usize = self.history.undo_depth();
        while self.history.undo_depth() > 0
            invariant
                self.wf(),
                self.origin() == old(self).origin(),
                count + self.history().undo_ops().len() == total,
                total == old(self).history().undo_ops().len(),
            decreases self.history().undo_ops().len(),
        {
            let _ = self.undo();
            count = count + 1;
        }
        count
    }

    /// Carries out `action` at time `now` and returns what a view needs to
    /// show the result.
    pub fn apply_action(&mut self, action: Action, now: u64) -> (state: ViewState)
        requires
            old(self).wf(),
        ensures
            final(self).wf(),
            stepped(*old(self), action, now, *final(self)),
            state.anchor == final(self).cursor().anchor,
            state.cursor == final(self).cursor().head,
            state.dirty == final(self).is_dirty(),
            state.line_count == line_starts(final(self).text()).len(),
    {
        match action {
            Action::Move(direction) => {
                self.history.flush();
                self.cursor.move_cursor(&self.buffer, direction, false);
            },
            Action::Select(direction) => {
                self.history.flush();
                self.cursor.move_cursor(&self.buffer, direction, true);
            },
            Action::Click(position) => {
                self.history.flush();
                self.cursor.set(&self.buffer, position);
            },
            Action::Undo => {
                let _ = self.undo();
            },
            Action::Redo => {
                let _ = self.redo();
            },
            edit => {
                self.edit(edit, now);
            },
        }
        self.view_state()
    }
}

} // verus!

//! Checkpoint history: a bounded, linear sequence of document snapshots with
//! a cursor for undo and redo, and line diffs between snapshots.

use std::collections::VecDeque;
use vstd::prelude::*;
use vstd::string::*;
use crate::diff::{diff_lines, line_changes, summarize, tag_count, unified_text, DiffTag};
use crate::text::str_eq;
use crate::types::{
    checkpoint_views, ChangeType, CheckpointDiff, CheckpointView, Diagnostic, EditorCheckpoint,
    diagnostic_views,
};

verus! {

/// The largest number of checkpoints that a history keeps.
pub const MAX_CHECKPOINTS: usize = 50;

/// Why a move through the history was refused.
#[derive(Debug, PartialEq, Eq, Clone, Copy)]
pub enum HistoryError {
    /// There is no earlier checkpoint to go back to.
    NoHistory,
    /// The history is at its latest state: there is nothing to redo.
    NoFuture,
    /// No checkpoint has the identifier asked for.
    NotFound,
}

/// The first index at which `checkpoints` holds a checkpoint with
/// identifier `id`.
pub open spec fn index_of(checkpoints: Seq<CheckpointView>, id: Seq<char>) -> Option<int>
    decreases checkpoints.len(),
{
    if checkpoints.len() == 0 {
        None
    } else {
        match index_of(checkpoints.drop_last(), id) {
            Some(i) => Some(i),
            None => if checkpoints.last().id == id {
                Some(checkpoints.len() - 1)
            } else {
                None
            },
        }
    }
}

/// A history as a mathematical value: the checkpoints from oldest to newest
/// and the cursor. A cursor of `None` stands for the head, behind the newest
/// checkpoint; `Some(i)` for viewing checkpoint `i`.
pub ghost struct HistoryView {
    pub checkpoints: Seq<CheckpointView>,
    pub cursor: Option<int>,
}

impl HistoryView {
    /// The history is within its capacity and its cursor points at a
    /// checkpoint.
    pub open spec fn wf(self) -> bool {
        &&& self.checkpoints.len() <= MAX_CHECKPOINTS
        &&& match self.cursor {
            Some(i) => 0 <= i < self.checkpoints.len(),
            None => true,
        }
    }

    /// The empty history.
    pub open spec fn empty() -> HistoryView {
        HistoryView { checkpoints: Seq::empty(), cursor: None }
    }

    /// The checkpoints that survive a new checkpoint: those up to the
    /// cursor, or all of them at the head.
    pub open spec fn kept(self) -> Seq<CheckpointView> {
        match self.cursor {
            Some(i) => self.checkpoints.take(i + 1),
            None => self.checkpoints,
        }
    }

    /// The history after `checkpoint` was created: the future behind the
    /// cursor is cut off, the checkpoint appended, the oldest one evicted if
    /// the capacity is exceeded, and the cursor back at the head.
    pub open spec fn pushed(self, checkpoint: CheckpointView) -> HistoryView {
        let grown = self.kept().push(checkpoint);
        HistoryView {
            checkpoints: if grown.len() > MAX_CHECKPOINTS {
                grown.drop_first()
            } else {
                grown
            },
            cursor: None,
        }
    }

    /// The checkpoint in view: the one under the cursor, or the newest at
    /// the head.
    pub open spec fn current(self) -> Option<CheckpointView> {
        match self.cursor {
            Some(i) => Some(self.checkpoints[i]),
            None => if self.checkpoints.len() > 0 {
                Some(self.checkpoints.last())
            } else {
                None
            },
        }
    }

    /// Where an undo leads: one before the cursor, or from the head to the
    /// checkpoint before the newest.
    pub open spec fn undo_target(self) -> Option<int> {
        match self.cursor {
            Some(i) => if i > 0 {
                Some(i - 1)
            } else {
                None
            },
            None => if self.checkpoints.len() > 1 {
                Some(self.checkpoints.len() - 2)
            } else {
                None
            },
        }
    }

    pub open spec fn can_undo(self) -> bool {
        self.undo_target() is Some
    }

    /// The history after an undo; unchanged where none is possible.
    pub open spec fn undone(self) -> HistoryView {
        match self.undo_target() {
            Some(t) => HistoryView { checkpoints: self.checkpoints, cursor: Some(t) },
            None => self,
        }
    }

    pub open spec fn can_redo(self) -> bool {
        self.cursor is Some
    }

    /// The history after a redo: the cursor one further, or back at the head
    /// from the newest checkpoint; unchanged at the head.
    pub open spec fn redone(self) -> HistoryView {
        match self.cursor {
            Some(i) => HistoryView {
                checkpoints: self.checkpoints,
                cursor: if i + 1 < self.checkpoints.len() {
                    Some(i + 1)
                } else {
                    None
                },
            },
            None => self,
        }
    }

    /// The checkpoint that a redo hands out.
    pub open spec fn redo_result(self) -> Option<CheckpointView> {
        match self.cursor {
            Some(i) => if i + 1 < self.checkpoints.len() {
                Some(self.checkpoints[i + 1])
            } else {
                Some(self.checkpoints.last())
            },
            None => None,
        }
    }

    /// The history with its cursor on the first checkpoint named `id`;
    /// unchanged where there is none.
    pub open spec fn restored(self, id: Seq<char>) -> HistoryView {
        match index_of(self.checkpoints, id) {
            Some(i) => HistoryView { checkpoints: self.checkpoints, cursor: Some(i) },
            None => self,
        }
    }
}

/// An index found by `index_of` lies in the sequence, carries the
/// identifier, and is the first to do so; where none is found, no
/// checkpoint carries it.
pub proof fn lemma_index_of(checkpoints: Seq<CheckpointView>, id: Seq<char>)
    ensures
        match index_of(checkpoints, id) {
            Some(i) => 0 <= i < checkpoints.len() && checkpoints[i].id == id && forall|j: int|
                0 <= j < i ==> checkpoints[j].id != id,
            None => forall|j: int| 0 <= j < checkpoints.len() ==> checkpoints[j].id != id,
        },
    decreases checkpoints.len(),
{
    if checkpoints.len() > 0 {
        let front = checkpoints.drop_last();
        lemma_index_of(front, id);
        assert forall|j: int| 0 <= j < front.len() implies front[j] == checkpoints[j] by {}
        match index_of(front, id) {
            Some(i) => {
                assert(checkpoints[i] == front[i]);
            },
            None => {
                assert forall|j: int| 0 <= j < front.len() implies checkpoints[j].id != id by {
                    assert(front[j].id != id);
                }
            },
        }
    }
}

/// Every step through a history keeps it within its capacity and its
/// cursor on a checkpoint.
pub proof fn lemma_steps_keep_wf(h: HistoryView, checkpoint: CheckpointView, id: Seq<char>)
    requires
        h.wf(),
    ensures
        h.pushed(checkpoint).wf(),
        h.undone().wf(),
        h.redone().wf(),
        h.restored(id).wf(),
{
    lemma_index_of(h.checkpoints, id);
}

/// History is linear: a checkpoint created after an undo cuts off the
/// checkpoints behind the cursor, leaves the new checkpoint as the newest
/// and the cursor at the head, so that a redo finds nothing and changes
/// nothing.
pub proof fn lemma_new_checkpoint_discards_future(h: HistoryView, checkpoint: CheckpointView)
    requires
        h.wf(),
    ensures
        !h.undone().pushed(checkpoint).can_redo(),
        h.undone().pushed(checkpoint).redo_result() is None,
        h.undone().pushed(checkpoint).redone() == h.undone().pushed(checkpoint),
        h.undone().pushed(checkpoint).checkpoints.last() == checkpoint,
        h.can_undo() ==> h.undone().pushed(checkpoint).checkpoints == h.checkpoints.take(
            h.undo_target()->0 + 1,
        ).push(checkpoint),
{
}

/// A redo takes back an undo: the checkpoint handed out, and then in view,
/// is the one that was in view before the undo, and no checkpoint is lost.
pub proof fn lemma_redo_reverts_undo(h: HistoryView)
    requires
        h.wf(),
        h.can_undo(),
    ensures
        h.undone().redone().checkpoints == h.checkpoints,
        h.undone().redone().current() == h.current(),
        h.undone().redo_result() == h.current(),
{
}

/// Undo and redo stack of editor checkpoints.
pub struct EditorHistory {
    checkpoints: VecDeque<EditorCheckpoint>,
    current_index: Option<usize>,
}

impl View for EditorHistory {
    type V = HistoryView;

    closed spec fn view(&self) -> HistoryView {
        HistoryView {
            checkpoints: checkpoint_views(self.checkpoints@),
            cursor: match self.current_index {
                Some(i) => Some(i as int),
                None => None,
            },
        }
    }
}

/// `uuid::Uuid::new_v4` draws a random version 4 identifier, written out
/// here in its hyphenated form. Nothing is claimed of the text.
#[verifier::external_body]
fn fresh_id() -> String {
    uuid::Uuid::new_v4().to_string()
}

/// `chrono::DateTime::<Utc>::from` on the moment that `SystemTime::now`
/// gives, read as milliseconds since the Unix epoch
/// (`DateTime::timestamp_millis`); a clock set before the epoch gives a
/// negative number. Nothing is claimed of the number.
#[verifier::external_body]
fn now_millis() -> i64 {
    chrono::DateTime::<chrono::Utc>::from(std::time::SystemTime::now()).timestamp_millis()
}

impl EditorHistory {
    /// The invariant of a history; every constructor and method keeps it.
    pub open spec fn wf(&self) -> bool {
        self@.wf()
    }

    pub fn new() -> (r: Self)
        ensures
            r.wf(),
            r@ == HistoryView::empty(),
    {
        let r = EditorHistory { checkpoints: VecDeque::new(), current_index: None };
        assert(checkpoint_views(r.checkpoints@) =~= Seq::empty());
        r
    }

    /// Files `checkpoint` as the newest state.
    pub fn record(&mut self, checkpoint: EditorCheckpoint)
        requires
            old(self).wf(),
        ensures
            final(self).wf(),
            final(self)@ == old(self)@.pushed(checkpoint@),
    {
        broadcast use vstd::std_specs::vecdeque::axiom_spec_len;

        let ghost before = checkpoint_views(self.checkpoints@);
        if let Some(current) = self.current_index {
            self.checkpoints.truncate(current + 1);
            assert(checkpoint_views(self.checkpoints@) =~= before.take(current + 1));
        }
        let ghost kept = checkpoint_views(self.checkpoints@);
        self.checkpoints.push_back(checkpoint);
        assert(checkpoint_views(self.checkpoints@) =~= kept.push(checkpoint@));
        if self.checkpoints.len() > MAX_CHECKPOINTS {
            let _ = self.checkpoints.pop_front();
            assert(checkpoint_views(self.checkpoints@) =~= kept.push(checkpoint@).drop_first());
        }
        self.current_index = None;
    }

    /// Snapshots the given document state as a new checkpoint with a fresh
    /// identifier and the current time, and returns the identifier.
    pub fn create_checkpoint(
        &mut self,
        code: String,
        diagnostics: Vec<Diagnostic>,
        description: String,
        change_type: ChangeType,
    ) -> (id: String)
        requires
            old(self).wf(),
        ensures
            final(self).wf(),
            exists|timestamp: i64|
                final(self)@ == old(self)@.pushed(
                    (CheckpointView {
                        id: id@,
                        timestamp,
                        code: code@,
                        diagnostics: diagnostic_views(diagnostics@),
                        description: description@,
                        change_type,
                    }),
                ),
    {
        let checkpoint = EditorCheckpoint {
            id: fresh_id(),
            timestamp: now_millis(),
            code,
            diagnostics,
            description,
            change_type,
        };
        let id = checkpoint.id.clone();
        let ghost view = checkpoint@;
        self.record(checkpoint);
        assert(final(self)@ == old(self)@.pushed(view));
        id
    }

    /// The checkpoint in view: the one under the cursor, or the newest.
    pub fn get_current(&self) -> (r: Option<&EditorCheckpoint>)
        requires
            self.wf(),
        ensures
            match r {
                Some(c) => self@.current() == Some(c@),
                None => self@.current() is None,
            },
    {
        broadcast use vstd::std_specs::vecdeque::axiom_spec_len;

        if let Some(index) = self.current_index {
            Some(&self.checkpoints[index])
        } else if self.checkpoints.len() > 0 {
            Some(&self.checkpoints[self.checkpoints.len() - 1])
        } else {
            None
        }
    }

    /// Steps back to the previous checkpoint and hands out a copy of it.
    pub fn undo(&mut self) -> (r: Result<EditorCheckpoint, HistoryError>)
        requires
            old(self).wf(),
        ensures
            final(self).wf(),
            final(self)@ == old(self)@.undone(),
            match r {
                Ok(c) => old(self)@.undo_target() is Some && c@ == old(self)@.checkpoints[old(
                    self,
                )@.undo_target()->0],
                Err(e) => e == HistoryError::NoHistory && !old(self)@.can_undo(),
            },
    {
        broadcast use vstd::std_specs::vecdeque::axiom_spec_len;

        let len = self.checkpoints.len();
        let new_index = if let Some(current) = self.current_index {
            if current > 0 {
                current - 1
            } else {
                return Err(HistoryError::NoHistory);
            }
        } else {
            if len > 1 {
                len - 2
            } else {
                return Err(HistoryError::NoHistory);
            }
        };
        self.current_index = Some(new_index);
        Ok(self.checkpoints[new_index].clone())
    }

    /// Steps forward to the next checkpoint, or from the newest back to the
    /// head, and hands out a copy of the checkpoint reached.
    pub fn redo(&mut self) -> (r: Result<EditorCheckpoint, HistoryError>)
        requires
            old(self).wf(),
        ensures
            final(self).wf(),
            final(self)@ == old(self)@.redone(),
            match r {
                Ok(c) => old(self)@.redo_result() == Some(c@),
                Err(e) => e == HistoryError::NoFuture && !old(self)@.can_redo(),
            },
    {
        broadcast use vstd::std_specs::vecdeque::axiom_spec_len;

        if let Some(current) = self.current_index {
            let new_index = current + 1;
            if new_index < self.checkpoints.len() {
                self.current_index = Some(new_index);
                Ok(self.checkpoints[new_index].clone())
            } else {
                self.current_index = None;
                Ok(self.checkpoints[current].clone())
            }
        } else {
            Err(HistoryError::NoFuture)
        }
    }

    /// Copies of all checkpoints, oldest first.
    pub fn get_all(&self) -> (r: Vec<EditorCheckpoint>)
        ensures
            checkpoint_views(r@) == self@.checkpoints,
    {
        broadcast use vstd::std_specs::vecdeque::axiom_spec_len;

        let ghost all = checkpoint_views(self.checkpoints@);
        let mut out: Vec<EditorCheckpoint> = Vec::new();
        let mut i: usize = 0;
        while i < self.checkpoints.len()
            invariant
                all == checkpoint_views(self.checkpoints@),
                i <= self.checkpoints.len(),
                checkpoint_views(out@) == all.take(i as int),
            decreases self.checkpoints.len() - i,
        {
            let ghost before = out@;
            let c = self.checkpoints[i].clone();
            out.push(c);
            i += 1;
            assert(checkpoint_views(out@) =~= checkpoint_views(before).push(c@));
            assert(checkpoint_views(out@) =~= all.take(i as int));
        }
        assert(all.take(all.len() as int) =~= all);
        out
    }

    /// Position of the first checkpoint with identifier `id`.
    fn position(&self, id: &str) -> (r: Option<usize>)
        ensures
            match r {
                Some(i) => index_of(self@.checkpoints, id@) == Some(i as int) && i
                    < self.checkpoints@.len(),
                None => index_of(self@.checkpoints, id@) is None,
            },
    {
        broadcast use vstd::std_specs::vecdeque::axiom_spec_len;

        let ghost all = checkpoint_views(self.checkpoints@);
        let mut i: usize = 0;
        while i < self.checkpoints.len()
            invariant
                all == checkpoint_views(self.checkpoints@),
                i <= self.checkpoints.len(),
                index_of(all.take(i as int), id@) is None,
            decreases self.checkpoints.len() - i,
        {
            assert(all.take(i + 1).drop_last() =~= all.take(i as int));
            if str_eq(self.checkpoints[i].id.as_str(), id) {
                proof {
                    lemma_index_of_prefix(all, id@, i + 1);
                }
                return Some(i);
            }
            i += 1;
        }
        assert(all.take(all.len() as int) =~= all);
        None
    }

    /// The first checkpoint with identifier `id`.
    pub fn get_by_id(&self, id: &str) -> (r: Option<&EditorCheckpoint>)
        ensures
            match r {
                Some(c) => index_of(self@.checkpoints, id@) is Some && c@
                    == self@.checkpoints[index_of(self@.checkpoints, id@)->0],
                None => index_of(self@.checkpoints, id@) is None,
            },
    {
        match self.position(id) {
            Some(i) => Some(&self.checkpoints[i]),
            None => None,
        }
    }

    /// Moves the cursor onto the first checkpoint with identifier `id` and
    /// hands out a copy of it.
    pub fn restore_to(&mut self, id: &str) -> (r: Result<EditorCheckpoint, HistoryError>)
        requires
            old(self).wf(),
        ensures
            final(self).wf(),
            final(self)@ == old(self)@.restored(id@),
            match r {
                Ok(c) => index_of(old(self)@.checkpoints, id@) is Some && c@ == old(
                    self,
                )@.checkpoints[index_of(old(self)@.checkpoints, id@)->0],
                Err(e) => e == HistoryError::NotFound && index_of(old(self)@.checkpoints, id@)
                    is None,
            },
    {
        match self.position(id) {
            Some(index) => {
                self.current_index = Some(index);
                Ok(self.checkpoints[index].clone())
            },
            None => Err(HistoryError::NotFound),
        }
    }

    /// The line diff between the texts of two checkpoints, found by their
    /// identifiers: the rendered text and the numbers of added and removed
    /// lines.
    pub fn get_diff(&self, from_id: &str, to_id: &str) -> (r: Result<CheckpointDiff, HistoryError>)
        ensures
            match r {
                Ok(d) => {
                    let from = index_of(self@.checkpoints, from_id@);
                    let to = index_of(self@.checkpoints, to_id@);
                    let changes = line_changes(
                        self@.checkpoints[from->0].code,
                        self@.checkpoints[to->0].code,
                    );
                    &&& from is Some
                    &&& to is Some
                    &&& d.from_id@ == from_id@
                    &&& d.to_id@ == to_id@
                    &&& d.diff@ == unified_text(changes)
                    &&& d.added_lines == tag_count(changes, DiffTag::Insert)
                    &&& d.removed_lines == tag_count(changes, DiffTag::Delete)
                },
                Err(e) => e == HistoryError::NotFound && (index_of(self@.checkpoints, from_id@)
                    is None || index_of(self@.checkpoints, to_id@) is None),
            },
    {
        let from = match self.get_by_id(from_id) {
            Some(c) => c,
            None => { return Err(HistoryError::NotFound); },
        };
        let to = match self.get_by_id(to_id) {
            Some(c) => c,
            None => { return Err(HistoryError::NotFound); },
        };
        let changes = diff_lines(from.code.as_str(), to.code.as_str());
        let summary = summarize(&changes);
        Ok(
            CheckpointDiff {
                from_id: from_id.to_string(),
                to_id: to_id.to_string(),
                diff: summary.diff,
                added_lines: summary.added_lines,
                removed_lines: summary.removed_lines,
            },
        )
    }

    /// Whether an undo would succeed.
    pub fn can_undo(&self) -> (r: bool)
        requires
            self.wf(),
        ensures
            r == self@.can_undo(),
    {
        broadcast use vstd::std_specs::vecdeque::axiom_spec_len;

        if let Some(current) = self.current_index {
            current > 0
        } else {
            self.checkpoints.len() > 1
        }
    }

    /// Whether a redo would succeed.
    pub fn can_redo(&self) -> (r: bool)
        requires
            self.wf(),
        ensures
            r == self@.can_redo(),
    {
        self.current_index.is_some()
    }

    /// Forgets every checkpoint.
    pub fn clear(&mut self)
        ensures
            final(self).wf(),
            final(self)@ == HistoryView::empty(),
    {
        self.checkpoints.clear();
        self.current_index = None;
        assert(checkpoint_views(self.checkpoints@) =~= Seq::empty());
    }
}

/// What `index_of` finds in a prefix that ends in the first checkpoint
/// carrying the identifier, it finds in the whole sequence.
proof fn lemma_index_of_prefix(checkpoints: Seq<CheckpointView>, id: Seq<char>, n: int)
    requires
        0 < n <= checkpoints.len(),
        index_of(checkpoints.take(n - 1), id) is None,
        checkpoints[n - 1].id == id,
    ensures
        index_of(checkpoints, id) == Some(n - 1),
    decreases checkpoints.len() - n,
{
    assert(checkpoints.take(n).drop_last() =~= checkpoints.take(n - 1));
    if n == checkpoints.len() {
        assert(checkpoints.take(n) =~= checkpoints);
    } else {
        lemma_index_of_grows(checkpoints, id, n);
    }
}

/// A find in a prefix stays the find in every longer prefix.
proof fn lemma_index_of_grows(checkpoints: Seq<CheckpointView>, id: Seq<char>, n: int)
    requires
        0 <= n <= checkpoints.len(),
        index_of(checkpoints.take(n), id) is Some,
    ensures
        index_of(checkpoints, id) == index_of(checkpoints.take(n), id),
    decreases checkpoints.len() - n,
{
    if n == checkpoints.len() {
        assert(checkpoints.take(n) =~= checkpoints);
    } else {
        assert(checkpoints.take(n + 1).drop_last() =~= checkpoints.take(n));
        lemma_index_of_grows(checkpoints, id, n + 1);
    }
}

} // verus!

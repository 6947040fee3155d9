//! One reconciliation pass, seen from the cache: the plan of what is to be
//! written, and the report of what the durable table made of it.

use crate::note::{Note, NoteDbStatus, NoteView};
use crate::store::views;
use std::sync::Arc;
use vstd::prelude::*;

verus! {

/// What became of one note of the update batch.
#[derive(Clone, Copy, Debug, PartialEq, Eq, Structural)]
pub enum UpdateOutcome {
    /// The row was there and took the new values.
    Applied,
    /// The row was there and the durable table refused the new values.
    Rejected,
    /// The row was gone, so nothing was written.
    Skipped,
    /// The durable table could not say whether the row was there, so nothing
    /// was written.
    Unchecked,
}

impl UpdateOutcome {
    /// Whether the outcome is a failure of the durable table. A row that was
    /// gone is none.
    pub open spec fn failed(self) -> bool {
        self == UpdateOutcome::Rejected || self == UpdateOutcome::Unchecked
    }

    /// Whether the outcome is a failure of the durable table.
    pub fn is_failure(&self) -> (failure: bool)
        ensures
            failure == self.failed(),
    {
        match self {
            UpdateOutcome::Rejected => true,
            UpdateOutcome::Unchecked => true,
            UpdateOutcome::Applied => false,
            UpdateOutcome::Skipped => false,
        }
    }
}

/// What a reconciliation pass is to write: the notes to insert, the notes to
/// update, the identifiers whose rows are to be deleted, and the number of
/// changes that the pass covers.
pub struct FlushPlan {
    pub inserts: Vec<Arc<Note>>,
    pub updates: Vec<Arc<Note>>,
    pub deletes: Vec<u128>,
    pub covered: u64,
}

/// The mathematical value of a [`FlushPlan`].
#[verifier::ext_equal]
pub struct PlanView {
    pub inserts: Seq<NoteView>,
    pub updates: Seq<NoteView>,
    pub deletes: Seq<u128>,
    pub covered: nat,
}

impl View for FlushPlan {
    type V = PlanView;

    open spec fn view(&self) -> PlanView {
        PlanView {
            inserts: views(self.inserts@),
            updates: views(self.updates@),
            deletes: self.deletes@,
            covered: self.covered as nat,
        }
    }
}

impl PlanView {
    /// Whether the plan asks for nothing to be written.
    pub open spec fn is_empty(self) -> bool {
        self.inserts.len() == 0 && self.updates.len() == 0 && self.deletes.len() == 0
    }
}

impl FlushPlan {
    /// Whether the plan asks for nothing to be written.
    pub fn is_empty(&self) -> (empty: bool)
        ensures
            empty == self@.is_empty(),
    {
        self.inserts.len() == 0 && self.updates.len() == 0 && self.deletes.len() == 0
    }
}

/// What the durable table made of a plan, item by item and in the plan's order:
/// whether each insert was accepted, what became of each update, whether each
/// delete went through.
pub struct FlushReport {
    pub inserted: Vec<bool>,
    pub updated: Vec<UpdateOutcome>,
    pub deleted: Vec<bool>,
}

/// The mathematical value of a [`FlushReport`].
#[verifier::ext_equal]
pub struct ReportView {
    pub inserted: Seq<bool>,
    pub updated: Seq<UpdateOutcome>,
    pub deleted: Seq<bool>,
}

impl View for FlushReport {
    type V = ReportView;

    open spec fn view(&self) -> ReportView {
        ReportView { inserted: self.inserted@, updated: self.updated@, deleted: self.deleted@ }
    }
}

/// The number of `false` among the outcomes.
pub open spec fn refusals(outcomes: Seq<bool>) -> nat
    decreases outcomes.len(),
{
    if outcomes.len() == 0 {
        0
    } else {
        refusals(outcomes.drop_last()) + if outcomes.last() {
            0nat
        } else {
            1nat
        }
    }
}

/// The number of failures among the outcomes of an update batch.
pub open spec fn update_failures(outcomes: Seq<UpdateOutcome>) -> nat
    decreases outcomes.len(),
{
    if outcomes.len() == 0 {
        0
    } else {
        update_failures(outcomes.drop_last()) + if outcomes.last().failed() {
            1nat
        } else {
            0nat
        }
    }
}

impl ReportView {
    /// For each update of the plan, whether the report shows it applied.
    pub open spec fn updates_accepted(self) -> Seq<bool> {
        self.updated.map_values(|outcome: UpdateOutcome| outcome == UpdateOutcome::Applied)
    }

    /// The number of failures of the durable table that the report shows: the
    /// inserts and deletes that were refused, and the updates that were
    /// rejected or left unchecked. An update that was skipped because its row
    /// was gone is no failure.
    pub open spec fn failures(self) -> nat {
        refusals(self.inserted) + update_failures(self.updated) + refusals(self.deleted)
    }
}

fn count_refusals(outcomes: &Vec<bool>) -> (count: usize)
    ensures
        count == refusals(outcomes@),
{
    let mut count: usize = 0;
    let mut i: usize = 0;
    while i < outcomes.len()
        invariant
            i <= outcomes.len(),
            count == refusals(outcomes@.take(i as int)),
            count <= i,
        decreases outcomes.len() - i,
    {
        proof {
            assert(outcomes@.take(i + 1).drop_last() =~= outcomes@.take(i as int));
        }
        if !outcomes[i] {
            count += 1;
        }
        i += 1;
    }
    proof {
        assert(outcomes@.take(outcomes@.len() as int) =~= outcomes@);
    }
    count
}

impl FlushReport {
    /// The number of failures of the durable table that the report shows.
    pub fn failure_count(&self) -> (count: u128)
        ensures
            count == self@.failures(),
    {
        let mut failed: usize = 0;
        let mut i: usize = 0;
        while i < self.updated.len()
            invariant
                i <= self.updated.len(),
                failed == update_failures(self.updated@.take(i as int)),
                failed <= i,
            decreases self.updated.len() - i,
        {
            proof {
                assert(self.updated@.take(i + 1).drop_last() =~= self.updated@.take(i as int));
            }
            if self.updated[i].is_failure() {
                failed += 1;
            }
            i += 1;
        }
        proof {
            assert(self.updated@.take(self.updated@.len() as int) =~= self.updated@);
        }
        let refused = count_refusals(&self.inserted);
        let kept = count_refusals(&self.deleted);
        refused as u128 + failed as u128 + kept as u128
    }
}

/// Whether the durable table has confirmed a note: the batch holds the note as
/// it stands, and the outcome at that place is an acceptance.
pub open spec fn confirmed(note: NoteView, batch: Seq<NoteView>, accepted: Seq<bool>) -> bool {
    exists|i: int|
        0 <= i < batch.len() && i < accepted.len() && accepted[i] && #[trigger] batch[i] == note
}

/// The store after the outcomes of a batch are taken in: each confirmed note
/// is tagged `FromDb`, every other note stays as it is. A note that was changed
/// after the batch was drawn up no longer stands as the batch holds it, so it
/// keeps its tag.
pub open spec fn confirm(notes: Map<u128, NoteView>, batch: Seq<NoteView>, accepted: Seq<bool>) -> Map<
    u128,
    NoteView,
> {
    Map::new(
        |id: u128| notes.contains_key(id),
        |id: u128|
            if confirmed(notes[id], batch, accepted) {
                notes[id].tagged(NoteDbStatus::FromDb)
            } else {
                notes[id]
            },
    )
}

/// The notes of the store that carry the given tag.
pub open spec fn with_tag(notes: Map<u128, NoteView>, tag: NoteDbStatus) -> Map<u128, NoteView> {
    Map::new(|id: u128| notes.contains_key(id) && notes[id].db_status == tag, |id: u128| notes[id])
}

} // verus!

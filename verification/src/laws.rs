//! What holds of the cache over whole sequences of requests and over
//! successive reconciliation passes.

use crate::cache::{note_of, CacheView};
use crate::flush::{confirm, confirmed, with_tag, PlanView, ReportView, UpdateOutcome};
use crate::json::NoteFields;
use crate::note::{NoteDbStatus, NoteView};
use crate::store::lists;
use crate::tombstones::ids_of;
use crate::tracker::flush_due;
use crate::worker::{transition, ActionView, AfterFlush, EventView, Settings, WorkerState};
use vstd::prelude::*;

verus! {

/// A request that changes the cache.
pub enum Request {
    /// Create a note with these fields under `id`, the identifier that the
    /// cache chose for it.
    Create { id: u128, fields: NoteFields },
    /// Overwrite the note that the fields name.
    Update { fields: NoteFields },
    /// Delete the note under `id`.
    Delete { id: u128 },
}

impl Request {
    /// The identifier that the request is about.
    pub open spec fn target(self) -> u128 {
        match self {
            Request::Create { id, .. } => id,
            Request::Update { fields } => fields.uuid,
            Request::Delete { id } => id,
        }
    }
}

/// The cache after one request.
pub open spec fn apply(cache: CacheView, request: Request) -> CacheView {
    match request {
        Request::Create { id, fields } => cache.created(id, fields),
        Request::Update { fields } => cache.updated(fields),
        Request::Delete { id } => cache.deleted(id),
    }
}

/// The cache after a sequence of requests, taken in order.
pub open spec fn run(cache: CacheView, requests: Seq<Request>) -> CacheView
    decreases requests.len(),
{
    if requests.len() == 0 {
        cache
    } else {
        apply(run(cache, requests.drop_last()), requests.last())
    }
}

/// Whether every creation in the sequence is under an identifier that is not
/// in use when its turn comes.
pub open spec fn creates_fresh(cache: CacheView, requests: Seq<Request>) -> bool
    decreases requests.len(),
{
    if requests.len() == 0 {
        true
    } else {
        &&& creates_fresh(cache, requests.drop_last())
        &&& requests.last() matches Request::Create { id, .. } ==> !run(
            cache,
            requests.drop_last(),
        ).in_use(id)
    }
}

/// One request keeps the invariant of the cache, if it creates under an
/// identifier that is not in use.
pub proof fn lemma_request_keeps_invariant(cache: CacheView, request: Request)
    requires
        cache.wf(),
        request matches Request::Create { id, .. } ==> !cache.in_use(id),
    ensures
        apply(cache, request).wf(),
{
    let after = apply(cache, request);
    match request {
        Request::Create { id, fields } => {
            assert forall|i: int| 0 <= i < after.tombstones.len() implies !after.notes.contains_key(
                (#[trigger] after.tombstones[i]).uuid,
            ) by {
                assert(ids_of(cache.tombstones)[i] == cache.tombstones[i].uuid);
            }
        },
        Request::Update { fields } => {},
        Request::Delete { id } => {},
    }
}

/// The invariant of the cache holds after any sequence of requests: the
/// identifiers of the store stay unique, and no note is in the store and in
/// the tombstone buffer at once.
pub proof fn lemma_requests_keep_invariant(cache: CacheView, requests: Seq<Request>)
    requires
        cache.wf(),
        creates_fresh(cache, requests),
    ensures
        run(cache, requests).wf(),
    decreases requests.len(),
{
    if requests.len() > 0 {
        lemma_requests_keep_invariant(cache, requests.drop_last());
        lemma_request_keeps_invariant(run(cache, requests.drop_last()), requests.last());
    }
}

/// A deletion that names no note of the store changes nothing: not the
/// store, not the tombstone buffer, not the count of changes.
pub proof fn lemma_missing_delete_changes_nothing(cache: CacheView, id: u128)
    requires
        !cache.notes.contains_key(id),
    ensures
        cache.deleted(id) == cache,
{
}

/// What a store holds under an identifier, if anything.
pub open spec fn entry(notes: Map<u128, NoteView>, id: u128) -> Option<NoteView> {
    if notes.contains_key(id) {
        Some(notes[id])
    } else {
        None
    }
}

/// What one request makes of the note under `id`. A request about another
/// identifier leaves it alone; a creation puts a new note there; an update
/// overwrites the note if there is one; a deletion leaves nothing.
pub open spec fn touch(before: Option<NoteView>, request: Request, id: u128) -> Option<NoteView> {
    if request.target() != id {
        before
    } else {
        match request {
            Request::Create { fields, .. } => Some(note_of(id, NoteDbStatus::New, fields)),
            Request::Update { fields } => if before is Some {
                Some(note_of(id, NoteDbStatus::Updated, fields))
            } else {
                None
            },
            Request::Delete { .. } => None,
        }
    }
}

/// The net effect of a sequence of requests on the note under `id`.
pub open spec fn fate(before: Option<NoteView>, requests: Seq<Request>, id: u128) -> Option<NoteView>
    decreases requests.len(),
{
    if requests.len() == 0 {
        before
    } else {
        touch(fate(before, requests.drop_last(), id), requests.last(), id)
    }
}

/// After any sequence of requests, what the store holds under an identifier
/// is the net effect of the requests on that identifier.
pub proof fn lemma_store_holds_net_effect(cache: CacheView, requests: Seq<Request>, id: u128)
    ensures
        entry(run(cache, requests).notes, id) == fate(entry(cache.notes, id), requests, id),
    decreases requests.len(),
{
    if requests.len() > 0 {
        lemma_store_holds_net_effect(cache, requests.drop_last(), id);
    }
}

/// A snapshot taken after any sequence of requests shows exactly the net
/// effect of the sequence: under each identifier the note that the requests
/// leave there, once, and no note where they leave none.
pub proof fn lemma_snapshot_shows_net_effect(
    cache: CacheView,
    requests: Seq<Request>,
    snapshot: Seq<NoteView>,
    id: u128,
)
    requires
        lists(snapshot, run(cache, requests).notes),
    ensures
        match fate(entry(cache.notes, id), requests, id) {
            Some(note) => exists|i: int|
                0 <= i < snapshot.len() && #[trigger] snapshot[i] == note && forall|j: int|
                    0 <= j < snapshot.len() && (#[trigger] snapshot[j]).uuid == id ==> j == i,
            None => forall|i: int| 0 <= i < snapshot.len() ==> (#[trigger] snapshot[i]).uuid != id,
        },
{
    lemma_store_holds_net_effect(cache, requests, id);
    let notes = run(cache, requests).notes;
    if notes.contains_key(id) {
        let i = choose|i: int| 0 <= i < snapshot.len() && (#[trigger] snapshot[i]).uuid == id;
        assert(notes.contains_key(snapshot[i].uuid));
        assert(snapshot[i] == notes[id]);
        assert forall|j: int|
            0 <= j < snapshot.len() && (#[trigger] snapshot[j]).uuid == id implies j == i by {
            if j < i {
                assert(snapshot[j].uuid != snapshot[i].uuid);
            }
            if i < j {
                assert(snapshot[i].uuid != snapshot[j].uuid);
            }
        }
    } else {
        assert forall|i: int| 0 <= i < snapshot.len() implies (#[trigger] snapshot[i]).uuid
            != id by {
            assert(notes.contains_key(snapshot[i].uuid));
        }
    }
}

/// Reading again changes nothing: two snapshots of one store hold the same
/// notes, each as often as the other, whatever their order.
pub proof fn lemma_snapshots_agree(
    first: Seq<NoteView>,
    second: Seq<NoteView>,
    notes: Map<u128, NoteView>,
)
    requires
        lists(first, notes),
        lists(second, notes),
    ensures
        first.to_multiset() == second.to_multiset(),
{
    lemma_listing_counts(first, notes);
    lemma_listing_counts(second, notes);
    assert(first.to_multiset() =~= second.to_multiset());
}

/// In a listing of a store each note of the store occurs once, and nothing
/// else occurs.
proof fn lemma_listing_counts(items: Seq<NoteView>, notes: Map<u128, NoteView>)
    requires
        lists(items, notes),
    ensures
        forall|note: NoteView|
            #[trigger] items.to_multiset().count(note) == if notes.contains_key(note.uuid)
                && notes[note.uuid] == note {
                1nat
            } else {
                0nat
            },
{
    assert(items.no_duplicates()) by {
        assert forall|i: int, j: int|
            0 <= i < items.len() && 0 <= j < items.len() && i != j implies items[i]
            != items[j] by {
            if i < j {
                assert(items[i].uuid != items[j].uuid);
            } else {
                assert(items[j].uuid != items[i].uuid);
            }
        }
    }
    items.lemma_multiset_has_no_duplicates();
    assert forall|note: NoteView|
        #[trigger] items.to_multiset().count(note) == if notes.contains_key(note.uuid)
            && notes[note.uuid] == note {
            1nat
        } else {
            0nat
        } by {
        vstd::seq_lib::to_multiset_contains(items, note);
        if notes.contains_key(note.uuid) && notes[note.uuid] == note {
            let i = choose|i: int| 0 <= i < items.len() && (#[trigger] items[i]).uuid == note.uuid;
            assert(notes.contains_key(items[i].uuid));
            assert(items[i] == note);
            assert(items.contains(note));
        } else {
            if items.contains(note) {
                let i = choose|i: int| 0 <= i < items.len() && items[i] == note;
                assert(notes.contains_key(items[i].uuid));
            }
        }
    }
}

/// Once the report of a pass is taken in, a note is dirty exactly if it was
/// dirty before and the durable table has not confirmed it.
pub proof fn lemma_settled_dirty(
    cache: CacheView,
    plan: PlanView,
    report: ReportView,
    now: nat,
    id: u128,
)
    requires
        cache.wf(),
        cache.plans(plan),
        cache.notes.contains_key(id),
    ensures
        ({
            let after = cache.drained().settled(plan, report, now);
            let note = cache.notes[id];
            &&& after.notes.contains_key(id)
            &&& after.notes[id].is_dirty() <==> note.is_dirty() && !confirmed(
                note,
                plan.inserts,
                report.inserted,
            ) && !confirmed(note, plan.updates, report.updates_accepted())
            &&& after.notes[id] == note || after.notes[id] == note.tagged(NoteDbStatus::FromDb)
        }),
{
    let note = cache.notes[id];
    let middle = confirm(cache.notes, plan.inserts, report.inserted);
    if confirmed(note, plan.inserts, report.inserted) {
        let i = choose|i: int|
            0 <= i < plan.inserts.len() && i < report.inserted.len() && report.inserted[i]
                && #[trigger] plan.inserts[i] == note;
        assert(with_tag(cache.notes, NoteDbStatus::New).contains_key(plan.inserts[i].uuid));
        if confirmed(middle[id], plan.updates, report.updates_accepted()) {
            let k = choose|k: int|
                0 <= k < plan.updates.len() && k < report.updates_accepted().len()
                    && report.updates_accepted()[k] && #[trigger] plan.updates[k] == middle[id];
            assert(with_tag(cache.notes, NoteDbStatus::Updated).contains_key(plan.updates[k].uuid));
        }
    } else {
        assert(middle[id] == note);
    }
}

/// A note that was changed while a pass was under way is not lost: it no
/// longer stands as the plan holds it, so taking the report in leaves it as
/// it is, tag included, for the next pass.
pub proof fn lemma_changed_note_stays_dirty(
    cache: CacheView,
    plan: PlanView,
    report: ReportView,
    now: nat,
    id: u128,
)
    requires
        cache.notes.contains_key(id),
        !plan.inserts.contains(cache.notes[id]),
        !plan.updates.contains(cache.notes[id]),
    ensures
        cache.settled(plan, report, now).notes.contains_key(id),
        cache.settled(plan, report, now).notes[id] == cache.notes[id],
{
}

/// A change that was recorded while a pass was under way is not lost: when
/// the pass is closed, the count shows the changes that came after the plan
/// was drawn up.
pub proof fn lemma_later_changes_stay_counted(
    cache: CacheView,
    plan: PlanView,
    report: ReportView,
    now: nat,
)
    requires
        plan.covered <= cache.dirty,
    ensures
        cache.settled(plan, report, now).dirty == cache.dirty - plan.covered,
        cache.settled(plan, report, now).last_flush == Some(now),
        cache.settled(plan, report, now).tombstones == cache.tombstones,
{
}

/// Whether the report shows every insert and every update of the plan
/// accepted.
pub open spec fn accepts_all(report: ReportView, plan: PlanView) -> bool {
    &&& forall|i: int|
        0 <= i < plan.inserts.len() ==> i < report.inserted.len() && #[trigger] report.inserted[i]
    &&& forall|i: int|
        0 <= i < plan.updates.len() ==> i < report.updated.len() && #[trigger] report.updated[i]
            == UpdateOutcome::Applied
}

/// A pass is idempotent: when the durable table has accepted every write of a
/// pass and nothing was changed since, no change is left to count and the plan
/// of the next pass is empty.
pub proof fn lemma_second_pass_writes_nothing(
    cache: CacheView,
    plan: PlanView,
    report: ReportView,
    now: nat,
    next: PlanView,
)
    requires
        cache.wf(),
        cache.plans(plan),
        accepts_all(report, plan),
        cache.drained().settled(plan, report, now).plans(next),
    ensures
        cache.drained().settled(plan, report, now).dirty == 0,
        next.is_empty(),
{
    let after = cache.drained().settled(plan, report, now);
    assert forall|id: u128| after.notes.contains_key(id) implies !(#[trigger] after.notes[id]).is_dirty() by {
        lemma_settled_dirty(cache, plan, report, now, id);
        let note = cache.notes[id];
        if note.db_status == NoteDbStatus::New {
            assert(with_tag(cache.notes, NoteDbStatus::New).contains_key(id));
            let i = choose|i: int| 0 <= i < plan.inserts.len() && (#[trigger] plan.inserts[i]).uuid == id;
            assert(with_tag(cache.notes, NoteDbStatus::New).contains_key(plan.inserts[i].uuid));
            assert(report.inserted[i]);
            assert(plan.inserts[i] == note);
        } else if note.db_status == NoteDbStatus::Updated {
            assert(with_tag(cache.notes, NoteDbStatus::Updated).contains_key(id));
            let i = choose|i: int| 0 <= i < plan.updates.len() && (#[trigger] plan.updates[i]).uuid == id;
            assert(with_tag(cache.notes, NoteDbStatus::Updated).contains_key(plan.updates[i].uuid));
            assert(report.updated[i] == UpdateOutcome::Applied);
            assert(report.updates_accepted()[i]);
            assert(plan.updates[i] == note);
        }
    }
    if next.inserts.len() > 0 {
        assert(with_tag(after.notes, NoteDbStatus::New).contains_key(next.inserts[0].uuid));
    }
    if next.updates.len() > 0 {
        assert(with_tag(after.notes, NoteDbStatus::Updated).contains_key(next.updates[0].uuid));
    }
    assert(ids_of(after.tombstones) =~= Seq::<u128>::empty());
}

/// Termination begins a pass whatever the thresholds and the clock say, and
/// the plan of that pass names every note that is dirty.
pub proof fn lemma_termination_forces_a_pass(
    settings: Settings,
    state: WorkerState,
    cache: CacheView,
    next: WorkerState,
    next_cache: CacheView,
    action: ActionView,
)
    requires
        state == WorkerState::Idle || state == WorkerState::Checking,
        transition(settings, state, cache, EventView::Terminate, next, next_cache, action),
    ensures
        next == (WorkerState::Flushing { then: AfterFlush::Stop }),
        action is Flush,
        forall|id: u128|
            cache.notes.contains_key(id) && (#[trigger] cache.notes[id]).is_dirty() ==> (
            action->plan).inserts.contains(cache.notes[id]) || (action->plan).updates.contains(
                cache.notes[id],
            ),
{
    let plan = action->plan;
    assert forall|id: u128|
        cache.notes.contains_key(id) && (#[trigger] cache.notes[id]).is_dirty() implies plan.inserts.contains(
        cache.notes[id],
    ) || plan.updates.contains(cache.notes[id]) by {
        if cache.notes[id].db_status == NoteDbStatus::New {
            let part = with_tag(cache.notes, NoteDbStatus::New);
            assert(part.contains_key(id));
            let i = choose|i: int| 0 <= i < plan.inserts.len() && (#[trigger] plan.inserts[i]).uuid == id;
            assert(part.contains_key(plan.inserts[i].uuid));
            assert(plan.inserts[i] == cache.notes[id]);
        } else {
            let part = with_tag(cache.notes, NoteDbStatus::Updated);
            assert(part.contains_key(id));
            let i = choose|i: int| 0 <= i < plan.updates.len() && (#[trigger] plan.updates[i]).uuid == id;
            assert(part.contains_key(plan.updates[i].uuid));
            assert(plan.updates[i] == cache.notes[id]);
        }
    }
}

/// The worker stops only when the report of its last pass has come in and the
/// cache has taken it in.
pub proof fn lemma_worker_stops_after_last_pass(
    settings: Settings,
    state: WorkerState,
    cache: CacheView,
    event: EventView,
    next: WorkerState,
    next_cache: CacheView,
    action: ActionView,
)
    requires
        state != WorkerState::ShuttingDown,
        transition(settings, state, cache, event, next, next_cache, action),
        next == WorkerState::ShuttingDown || action == ActionView::Exit,
    ensures
        state == (WorkerState::Flushing { then: AfterFlush::Stop }),
        next == WorkerState::ShuttingDown,
        action == ActionView::Exit,
        event matches EventView::Flushed { plan, report, now } && next_cache == cache.settled(
            plan,
            report,
            now,
        ),
{
}

/// With nothing to count, no pass is due, as long as the count threshold asks
/// for at least one change.
pub proof fn lemma_clean_cache_is_not_due(
    last_flush: Option<nat>,
    count_threshold: nat,
    time_threshold: nat,
    now: nat,
)
    requires
        count_threshold > 0,
    ensures
        !flush_due(0, last_flush, count_threshold, time_threshold, now),
{
}

} // verus!

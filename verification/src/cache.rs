//! The cache: the store, the tombstone buffer and the change tracker, and the
//! three requests that change them.

use crate::error::RequestError;
use crate::flush::{
    confirm, confirmed, with_tag, FlushPlan, FlushReport, PlanView, ReportView, UpdateOutcome,
};
use crate::ident::{is_random_form, random_id};
use crate::json;
use crate::note::{Note, NoteDbStatus, NoteView};
use crate::store::{lists, views, Store};
use crate::tombstones::{ids_of, TombstoneBuffer};
use crate::tracker::{bumped, flush_due, uncovered, ChangeTracker};
use std::sync::Arc;
use vstd::prelude::*;

verus! {

/// The note that stands under `id` with the given tag and a caller's fields.
/// The identifier among the fields is not looked at.
pub open spec fn note_of(id: u128, tag: NoteDbStatus, fields: json::NoteFields) -> NoteView {
    NoteView {
        uuid: id,
        db_status: tag,
        title: fields.title,
        status: fields.status,
        mod_time: fields.mod_time,
        description: fields.description,
    }
}

/// The number of identifiers that there are.
pub open spec fn id_count() -> int {
    u128::MAX + 1
}

/// The identifier that stands `steps` places after `start`; after the largest
/// identifier comes the smallest.
pub open spec fn probe(start: u128, steps: nat) -> u128 {
    ((start + steps) % id_count()) as u128
}

/// The store of a cache that was filled with `items` one after another, each
/// tagged `FromDb`: of two notes with one identifier the later one stays.
pub open spec fn loaded(items: Seq<NoteView>) -> Map<u128, NoteView>
    decreases items.len(),
{
    if items.len() == 0 {
        Map::empty()
    } else {
        loaded(items.drop_last()).insert(
            items.last().uuid,
            items.last().tagged(NoteDbStatus::FromDb),
        )
    }
}

/// The mathematical value of a [`Cache`].
#[verifier::ext_equal]
pub struct CacheView {
    /// The notes of the store, each under its identifier.
    pub notes: Map<u128, NoteView>,
    /// The removed notes whose rows wait to be deleted, oldest first.
    pub tombstones: Seq<NoteView>,
    /// The number of changes not yet reconciled.
    pub dirty: nat,
    /// The time at which the last reconciliation was completed.
    pub last_flush: Option<nat>,
}

impl CacheView {
    /// An identifier is in use while a note stands under it in the store or
    /// waits under it in the tombstone buffer.
    pub open spec fn in_use(self, id: u128) -> bool {
        self.notes.contains_key(id) || ids_of(self.tombstones).contains(id)
    }

    /// The identifiers in use.
    pub open spec fn used(self) -> Set<u128> {
        self.notes.dom().union(ids_of(self.tombstones).to_set())
    }

    /// The store holds finitely many notes, each under its own identifier; no
    /// identifier is both in the store and in the tombstone buffer, and none
    /// waits in the buffer twice.
    pub open spec fn wf(self) -> bool {
        &&& self.notes.dom().finite()
        &&& forall|id: u128| self.notes.contains_key(id) ==> (#[trigger] self.notes[id]).uuid == id
        &&& forall|i: int|
            0 <= i < self.tombstones.len() ==> !self.notes.contains_key(
                (#[trigger] self.tombstones[i]).uuid,
            )
        &&& forall|i: int, j: int|
            0 <= i < j < self.tombstones.len() ==> (#[trigger] self.tombstones[i]).uuid != (
            #[trigger] self.tombstones[j]).uuid
    }

    /// Whether `id` is the first identifier not in use, counting from `start`.
    pub open spec fn first_free(self, start: u128, id: u128) -> bool {
        exists|steps: nat|
            {
                &&& #[trigger] probe(start, steps) == id
                &&& !self.in_use(id)
                &&& forall|j: nat| j < steps ==> self.in_use(#[trigger] probe(start, j))
            }
    }

    /// The cache after a note with the given fields was created under `id`.
    pub open spec fn created(self, id: u128, fields: json::NoteFields) -> CacheView {
        CacheView {
            notes: self.notes.insert(id, note_of(id, NoteDbStatus::New, fields)),
            dirty: bumped(self.dirty),
            ..self
        }
    }

    /// The cache after a request to overwrite the note that the fields name.
    /// Where no such note stands, nothing changes.
    pub open spec fn updated(self, fields: json::NoteFields) -> CacheView {
        if self.notes.contains_key(fields.uuid) {
            CacheView {
                notes: self.notes.insert(
                    fields.uuid,
                    note_of(fields.uuid, NoteDbStatus::Updated, fields),
                ),
                dirty: bumped(self.dirty),
                ..self
            }
        } else {
            self
        }
    }

    /// Whether `plan` is a plan of this cache: its inserts name every note
    /// tagged `New` once, its updates every note tagged `Updated` once, its
    /// deletes are the identifiers of the tombstones in their order, and it
    /// covers every change counted so far.
    pub open spec fn plans(self, plan: PlanView) -> bool {
        &&& lists(plan.inserts, with_tag(self.notes, NoteDbStatus::New))
        &&& lists(plan.updates, with_tag(self.notes, NoteDbStatus::Updated))
        &&& plan.deletes == ids_of(self.tombstones)
        &&& plan.covered == self.dirty
    }

    /// The cache once a plan is drawn up: the tombstone buffer is empty.
    pub open spec fn drained(self) -> CacheView {
        CacheView { tombstones: Seq::empty(), ..self }
    }

    /// The cache once the report of a pass is taken in at the time `now`: the
    /// notes that the durable table has confirmed are tagged `FromDb`, the
    /// changes that the plan covered leave the count, and `now` is the time of
    /// the last reconciliation.
    pub open spec fn settled(self, plan: PlanView, report: ReportView, now: nat) -> CacheView {
        CacheView {
            notes: confirm(
                confirm(self.notes, plan.inserts, report.inserted),
                plan.updates,
                report.updates_accepted(),
            ),
            dirty: uncovered(self.dirty, plan.covered),
            last_flush: Some(now),
            ..self
        }
    }

    /// The cache after a request to delete the note under `id`: the note
    /// leaves the store for the end of the tombstone buffer. Where no such
    /// note stands, nothing changes.
    pub open spec fn deleted(self, id: u128) -> CacheView {
        if self.notes.contains_key(id) {
            CacheView {
                notes: self.notes.remove(id),
                tombstones: self.tombstones.push(self.notes[id]),
                dirty: bumped(self.dirty),
                ..self
            }
        } else {
            self
        }
    }
}

/// If the first `steps` identifiers after `start` are all in a finite set, the
/// set has at least `steps` members.
proof fn lemma_probes_counted(used: Set<u128>, start: u128, steps: nat)
    requires
        used.finite(),
        steps <= id_count(),
        forall|j: nat| j < steps ==> used.contains(#[trigger] probe(start, j)),
    ensures
        used.len() >= steps,
    decreases steps,
{
    if steps > 0 {
        let last = probe(start, (steps - 1) as nat);
        let rest = used.remove(last);
        assert forall|j: nat| j < steps - 1 implies rest.contains(#[trigger] probe(start, j)) by {
            assert(used.contains(probe(start, j)));
            assert(probe(start, j) != last);
        }
        lemma_probes_counted(rest, start, (steps - 1) as nat);
    }
}

/// Whether `items` holds, each once, the notes with the given tag among those
/// of `all` that stand at `from` or later.
spec fn picks(items: Seq<NoteView>, all: Seq<NoteView>, from: int, tag: NoteDbStatus) -> bool {
    &&& forall|i: int|
        0 <= i < items.len() ==> (#[trigger] items[i]).db_status == tag && exists|p: int|
            from <= p < all.len() && #[trigger] all[p] == items[i]
    &&& forall|i: int, j: int|
        0 <= i < j < items.len() ==> (#[trigger] items[i]).uuid != (#[trigger] items[j]).uuid
    &&& forall|p: int|
        from <= p < all.len() && (#[trigger] all[p]).db_status == tag ==> exists|i: int|
            0 <= i < items.len() && #[trigger] items[i] == all[p]
}

/// Going one place further down `all`, over a note that carries the tag and is
/// added to the items.
proof fn lemma_picks_grow(items: Seq<NoteView>, all: Seq<NoteView>, from: int, tag: NoteDbStatus)
    requires
        0 < from <= all.len(),
        picks(items, all, from, tag),
        all[from - 1].db_status == tag,
        forall|p: int, q: int|
            0 <= p < q < all.len() ==> (#[trigger] all[p]).uuid != (#[trigger] all[q]).uuid,
    ensures
        picks(items.push(all[from - 1]), all, from - 1, tag),
{
    let more = items.push(all[from - 1]);
    assert forall|i: int| 0 <= i < more.len() implies (#[trigger] more[i]).db_status == tag
        && exists|p: int| from - 1 <= p < all.len() && #[trigger] all[p] == more[i] by {
        if i < items.len() {
            let p = choose|p: int| from <= p < all.len() && #[trigger] all[p] == items[i];
            assert(all[p] == more[i]);
        } else {
            assert(all[from - 1] == more[i]);
        }
    }
    assert forall|i: int, j: int| 0 <= i < j < more.len() implies (#[trigger] more[i]).uuid != (
    #[trigger] more[j]).uuid by {
        if j == items.len() {
            let p = choose|p: int| from <= p < all.len() && #[trigger] all[p] == items[i];
            assert(all[from - 1].uuid != all[p].uuid);
        } else {
            assert(items[i].uuid != items[j].uuid);
        }
    }
    assert forall|p: int|
        from - 1 <= p < all.len() && (#[trigger] all[p]).db_status == tag implies exists|i: int|
        0 <= i < more.len() && #[trigger] more[i] == all[p] by {
        if p == from - 1 {
            assert(more[items.len() as int] == all[p]);
        } else {
            let i = choose|i: int| 0 <= i < items.len() && #[trigger] items[i] == all[p];
            assert(more[i] == all[p]);
        }
    }
}

/// Going one place further down `all`, over a note that does not carry the
/// tag.
proof fn lemma_picks_pass(items: Seq<NoteView>, all: Seq<NoteView>, from: int, tag: NoteDbStatus)
    requires
        0 < from <= all.len(),
        picks(items, all, from, tag),
        all[from - 1].db_status != tag,
    ensures
        picks(items, all, from - 1, tag),
{
    assert forall|i: int| 0 <= i < items.len() implies (#[trigger] items[i]).db_status == tag
        && exists|p: int| from - 1 <= p < all.len() && #[trigger] all[p] == items[i] by {
        let p = choose|p: int| from <= p < all.len() && #[trigger] all[p] == items[i];
        assert(all[p] == items[i]);
    }
}

/// Picking from a listing of the whole store gives a listing of the notes with
/// the tag.
proof fn lemma_picks_list(
    items: Seq<NoteView>,
    all: Seq<NoteView>,
    notes: Map<u128, NoteView>,
    tag: NoteDbStatus,
)
    requires
        lists(all, notes),
        picks(items, all, 0, tag),
    ensures
        lists(items, with_tag(notes, tag)),
{
    let part = with_tag(notes, tag);
    assert forall|i: int| 0 <= i < items.len() implies part.contains_key(#[trigger] items[i].uuid)
        && part[items[i].uuid] == items[i] by {
        let p = choose|p: int| 0 <= p < all.len() && #[trigger] all[p] == items[i];
        assert(notes.contains_key(all[p].uuid));
    }
    assert forall|id: u128| part.contains_key(id) implies exists|i: int|
        0 <= i < items.len() && (#[trigger] items[i]).uuid == id by {
        let p = choose|p: int| 0 <= p < all.len() && (#[trigger] all[p]).uuid == id;
        assert(notes.contains_key(all[p].uuid));
        let i = choose|i: int| 0 <= i < items.len() && #[trigger] items[i] == all[p];
        assert(items[i].uuid == id);
    }
}

/// One more item of a batch confirms the notes that the items before it
/// confirm, and the note that it holds itself if its outcome is an acceptance.
proof fn lemma_confirmed_step(note: NoteView, batch: Seq<NoteView>, accepted: Seq<bool>, k: int)
    requires
        0 <= k < batch.len(),
    ensures
        confirmed(note, batch.take(k + 1), accepted) <==> confirmed(note, batch.take(k), accepted)
            || (k < accepted.len() && accepted[k] && batch[k] == note),
{
    let shorter = batch.take(k);
    let longer = batch.take(k + 1);
    if confirmed(note, longer, accepted) {
        let i = choose|i: int|
            0 <= i < longer.len() && i < accepted.len() && accepted[i] && #[trigger] longer[i]
                == note;
        if i < k {
            assert(shorter[i] == note);
        }
    }
    if confirmed(note, shorter, accepted) {
        let i = choose|i: int|
            0 <= i < shorter.len() && i < accepted.len() && accepted[i] && #[trigger] shorter[i]
                == note;
        assert(longer[i] == note);
    }
    if k < accepted.len() && accepted[k] && batch[k] == note {
        assert(longer[k] == note);
    }
}

/// Taking in the outcome of the item at `k` turns the store that has taken in
/// the first `k` outcomes into the store that has taken in the first `k + 1`.
proof fn lemma_confirm_step(
    notes: Map<u128, NoteView>,
    batch: Seq<NoteView>,
    accepted: Seq<bool>,
    k: int,
)
    requires
        0 <= k < batch.len(),
        forall|id: u128| notes.contains_key(id) ==> (#[trigger] notes[id]).uuid == id,
    ensures
        ({
            let before = confirm(notes, batch.take(k), accepted);
            let item = batch[k];
            let after = if k < accepted.len() && accepted[k] && before.contains_key(item.uuid)
                && before[item.uuid] == item {
                before.insert(item.uuid, item.tagged(NoteDbStatus::FromDb))
            } else {
                before
            };
            after == confirm(notes, batch.take(k + 1), accepted)
        }),
{
    let before = confirm(notes, batch.take(k), accepted);
    let item = batch[k];
    let after = if k < accepted.len() && accepted[k] && before.contains_key(item.uuid)
        && before[item.uuid] == item {
        before.insert(item.uuid, item.tagged(NoteDbStatus::FromDb))
    } else {
        before
    };
    let goal = confirm(notes, batch.take(k + 1), accepted);
    assert forall|id: u128| after.contains_key(id) implies #[trigger] after[id] == goal[id] by {
        lemma_confirmed_step(notes[id], batch, accepted, k);
    }
    assert(after.dom() =~= goal.dom());
    assert(after =~= goal);
}

/// The notes in memory, the removed notes that wait for their rows to be
/// deleted, and the count of changes since the last reconciliation.
pub struct Cache {
    store: Store,
    tombstones: TombstoneBuffer,
    tracker: ChangeTracker,
}

impl View for Cache {
    type V = CacheView;

    closed spec fn view(&self) -> CacheView {
        CacheView {
            notes: self.store@,
            tombstones: self.tombstones@,
            dirty: self.tracker.dirty(),
            last_flush: self.tracker.last_flush(),
        }
    }
}

impl Cache {
    /// The invariant of the cache. Every cache that this module hands out
    /// meets it, and every operation keeps it.
    pub open spec fn wf(&self) -> bool {
        self@.wf()
    }

    /// An empty cache: no note, no tombstone, no change, no reconciliation.
    pub fn new() -> (cache: Cache)
        ensures
            cache.wf(),
            cache@.notes == Map::<u128, NoteView>::empty(),
            cache@.tombstones == Seq::<NoteView>::empty(),
            cache@.dirty == 0,
            cache@.last_flush is None,
    {
        Cache { store: Store::new(), tombstones: TombstoneBuffer::new(), tracker: ChangeTracker::new() }
    }

    /// A cache warmed with the notes read from the durable table, each tagged
    /// `FromDb` whatever tag it came with.
    pub fn load(notes: Vec<Note>) -> (cache: Cache)
        ensures
            cache.wf(),
            cache@.notes == loaded(notes@.map_values(|note: Note| note@)),
            cache@.tombstones == Seq::<NoteView>::empty(),
            cache@.dirty == 0,
            cache@.last_flush is None,
    {
        let mut cache = Cache::new();
        let ghost items = notes@.map_values(|note: Note| note@);
        let mut i: usize = 0;
        while i < notes.len()
            invariant
                i <= notes.len(),
                items == notes@.map_values(|note: Note| note@),
                cache.wf(),
                cache@.notes == loaded(items.take(i as int)),
                cache@.tombstones == Seq::<NoteView>::empty(),
                cache@.dirty == 0,
                cache@.last_flush is None,
            decreases notes.len() - i,
        {
            let note = notes[i].retagged(NoteDbStatus::FromDb);
            cache.store.insert(note);
            proof {
                assert(items.take(i + 1).drop_last() =~= items.take(i as int));
                assert(items.take(i + 1).last() == notes@[i as int]@);
            }
            i += 1;
        }
        proof {
            assert(items.take(notes.len() as int) =~= items);
        }
        cache
    }

    /// The number of notes in the store.
    pub fn len(&self) -> (count: usize)
        ensures
            count == self@.notes.dom().len(),
    {
        self.store.len()
    }

    /// The number of removed notes whose rows wait to be deleted.
    pub fn tombstone_count(&self) -> (count: usize)
        ensures
            count == self@.tombstones.len(),
    {
        self.tombstones.len()
    }

    /// The number of changes not yet reconciled.
    pub fn dirty_count(&self) -> (count: u64)
        ensures
            count == self@.dirty,
    {
        self.tracker.dirty_count()
    }

    /// Whether a reconciliation is due at the time `now`.
    pub fn needs_flush(&self, count_threshold: u64, time_threshold: u64, now: u64) -> (due: bool)
        ensures
            due == flush_due(
                self@.dirty,
                self@.last_flush,
                count_threshold as nat,
                time_threshold as nat,
                now as nat,
            ),
    {
        self.tracker.needs_flush(count_threshold, time_threshold, now)
    }

    /// The current snapshot of the note under the identifier.
    pub fn get(&self, id: u128) -> (found: Option<Arc<Note>>)
        ensures
            found is Some == self@.notes.contains_key(id),
            found matches Some(note) ==> note@ == self@.notes[id],
    {
        self.store.get(id)
    }

    /// Every note of the store once, as it stands now, in no particular
    /// order. The cache is left as it is.
    pub fn snapshot_all(&self) -> (notes: Vec<Arc<Note>>)
        requires
            self.wf(),
        ensures
            lists(views(notes@), self@.notes),
    {
        self.store.snapshot_all()
    }

    /// The first identifier not in use, counting from `candidate`.
    fn free_id(&self, candidate: u128) -> (id: u128)
        requires
            self.wf(),
        ensures
            self@.first_free(candidate, id),
    {
        let stored = self.store.len();
        let waiting = self.tombstones.len();
        proof {
            let ids = ids_of(self@.tombstones);
            ids.lemma_cardinality_of_set();
            vstd::seq_lib::seq_to_set_is_finite(ids);
            vstd::set_lib::lemma_len_union(self@.notes.dom(), ids.to_set());
        }
        let mut id = candidate;
        let ghost mut steps: nat = 0;
        while self.store.contains(id) || self.tombstones.holds(id)
            invariant
                self.wf(),
                self@.used().finite(),
                self@.used().len() < id_count(),
                id == probe(candidate, steps),
                steps <= self@.used().len(),
                forall|j: nat| j < steps ==> self@.in_use(#[trigger] probe(candidate, j)),
            decreases self@.used().len() - steps,
        {
            proof {
                assert forall|j: nat| j < steps + 1 implies self@.used().contains(
                    #[trigger] probe(candidate, j),
                ) by {
                    assert(self@.in_use(probe(candidate, j)));
                }
                lemma_probes_counted(self@.used(), candidate, steps + 1);
                steps = steps + 1;
            }
            id = if id == u128::MAX {
                0
            } else {
                id + 1
            };
        }
        id
    }

    /// Creates a note with the caller's fields under the first identifier not
    /// in use, counting from `candidate`, and returns that identifier. The
    /// identifier among the fields is not looked at.
    pub fn create_from(&mut self, candidate: u128, payload: json::Note) -> (id: u128)
        requires
            old(self).wf(),
        ensures
            final(self).wf(),
            old(self)@.first_free(candidate, id),
            final(self)@ == old(self)@.created(id, payload@),
    {
        let id = self.free_id(candidate);
        let note = Note {
            uuid: id,
            db_status: NoteDbStatus::New,
            title: payload.title,
            status: payload.status,
            mod_time: payload.mod_time,
            description: payload.description,
        };
        self.store.insert(note);
        self.tracker.record_change();
        proof {
            assert forall|i: int| 0 <= i < self@.tombstones.len() implies !self@.notes.contains_key(
                (#[trigger] self@.tombstones[i]).uuid,
            ) by {
                assert(ids_of(old(self)@.tombstones)[i] == self@.tombstones[i].uuid);
            }
        }
        id
    }

    /// Creates a note with the caller's fields under an identifier drawn at
    /// random, or under the first one after it that is not in use, and returns
    /// the identifier.
    pub fn create(&mut self, payload: json::Note) -> (id: u128)
        requires
            old(self).wf(),
        ensures
            final(self).wf(),
            !old(self)@.in_use(id),
            exists|candidate: u128|
                is_random_form(candidate) && #[trigger] old(self)@.first_free(candidate, id),
            final(self)@ == old(self)@.created(id, payload@),
    {
        let candidate = random_id();
        self.create_from(candidate, payload)
    }

    /// Overwrites every field of the note that the payload names and tags it
    /// `Updated`; the identifier stays the one it was found under.
    pub fn update(&mut self, payload: json::Note) -> (result: Result<(), RequestError>)
        requires
            old(self).wf(),
        ensures
            final(self).wf(),
            result is Ok == old(self)@.notes.contains_key(payload.uuid),
            result is Err ==> result == Err::<(), RequestError>(RequestError::NotFound),
            final(self)@ == old(self)@.updated(payload@),
    {
        let id = payload.uuid;
        match self.store.get_for_mutation(id) {
            Some(mut note) => {
                note.uuid = id;
                note.title = payload.title;
                note.status = payload.status;
                note.mod_time = payload.mod_time;
                note.db_status = NoteDbStatus::Updated;
                note.description = payload.description;
                self.store.insert(note);
                self.tracker.record_change();
                Ok(())
            },
            None => Err(RequestError::NotFound),
        }
    }

    /// Moves the note under the identifier from the store to the end of the
    /// tombstone buffer. Where no such note stands, the cache is left as it
    /// is.
    pub fn delete(&mut self, target: json::Uuid) -> (result: Result<(), RequestError>)
        requires
            old(self).wf(),
        ensures
            final(self).wf(),
            result is Ok == old(self)@.notes.contains_key(target.uuid),
            result is Err ==> result == Err::<(), RequestError>(RequestError::NotFound)
                && final(self)@ == old(self)@,
            final(self)@ == old(self)@.deleted(target.uuid),
    {
        match self.store.remove(target.uuid) {
            Some(note) => {
                self.tombstones.push(note);
                self.tracker.record_change();
                Ok(())
            },
            None => {
                proof {
                    assert(self@.notes =~= old(self)@.notes);
                }
                Err(RequestError::NotFound)
            },
        }
    }

    /// Draws up the plan of a reconciliation pass: the notes tagged `New` for
    /// insertion, the notes tagged `Updated` for update, and the tombstones,
    /// which leave the buffer, for deletion.
    pub fn begin_flush(&mut self) -> (plan: FlushPlan)
        requires
            old(self).wf(),
        ensures
            final(self).wf(),
            old(self)@.plans(plan@),
            final(self)@ == old(self)@.drained(),
    {
        let mut snapshot = self.store.snapshot_all();
        let ghost all = views(snapshot@);
        let mut inserts: Vec<Arc<Note>> = Vec::new();
        let mut updates: Vec<Arc<Note>> = Vec::new();
        while snapshot.len() > 0
            invariant
                views(snapshot@) == all.take(snapshot@.len() as int),
                snapshot@.len() <= all.len(),
                lists(all, self@.notes),
                picks(views(inserts@), all, snapshot@.len() as int, NoteDbStatus::New),
                picks(views(updates@), all, snapshot@.len() as int, NoteDbStatus::Updated),
            decreases snapshot.len(),
        {
            let ghost from = snapshot@.len() as int;
            let ghost chosen_inserts = views(inserts@);
            let ghost chosen_updates = views(updates@);
            let ghost waiting = snapshot@;
            let note = snapshot.pop().unwrap();
            proof {
                assert(views(snapshot@) =~= all.take(from - 1));
                assert(note@ == views(waiting)[from - 1]);
                assert(note@ == all[from - 1]);
            }
            match note.db_status {
                NoteDbStatus::New => {
                    inserts.push(note);
                    proof {
                        assert(views(inserts@) =~= chosen_inserts.push(all[from - 1]));
                        lemma_picks_grow(chosen_inserts, all, from, NoteDbStatus::New);
                        lemma_picks_pass(chosen_updates, all, from, NoteDbStatus::Updated);
                    }
                },
                NoteDbStatus::Updated => {
                    updates.push(note);
                    proof {
                        assert(views(updates@) =~= chosen_updates.push(all[from - 1]));
                        lemma_picks_grow(chosen_updates, all, from, NoteDbStatus::Updated);
                        lemma_picks_pass(chosen_inserts, all, from, NoteDbStatus::New);
                    }
                },
                NoteDbStatus::FromDb => {
                    proof {
                        lemma_picks_pass(chosen_inserts, all, from, NoteDbStatus::New);
                        lemma_picks_pass(chosen_updates, all, from, NoteDbStatus::Updated);
                    }
                },
            }
        }
        proof {
            lemma_picks_list(views(inserts@), all, self@.notes, NoteDbStatus::New);
            lemma_picks_list(views(updates@), all, self@.notes, NoteDbStatus::Updated);
        }
        let drained = self.tombstones.drain();
        let mut deletes: Vec<u128> = Vec::new();
        let mut i: usize = 0;
        while i < drained.len()
            invariant
                i <= drained.len(),
                deletes@ == ids_of(views(drained@)).take(i as int),
            decreases drained.len() - i,
        {
            deletes.push(drained[i].uuid);
            proof {
                assert(deletes@ =~= ids_of(views(drained@)).take(i + 1));
            }
            i += 1;
        }
        proof {
            assert(deletes@ =~= ids_of(views(drained@)));
        }
        FlushPlan { inserts, updates, deletes, covered: self.tracker.dirty_count() }
    }

    /// Tags the note `FromDb` if the store still holds it exactly as given.
    fn confirm_one(&mut self, note: &Arc<Note>)
        requires
            old(self).wf(),
        ensures
            final(self).wf(),
            final(self)@ == (CacheView {
                notes: if old(self)@.notes.contains_key(note.uuid) && old(self)@.notes[note.uuid]
                    == note@ {
                    old(self)@.notes.insert(note.uuid, note@.tagged(NoteDbStatus::FromDb))
                } else {
                    old(self)@.notes
                },
                ..old(self)@
            }),
    {
        match self.store.get(note.uuid) {
            Some(current) => {
                if current.same_as(note) {
                    self.store.insert(current.retagged(NoteDbStatus::FromDb));
                }
            },
            None => {},
        }
        proof {
            assert(self@.notes =~= if old(self)@.notes.contains_key(note.uuid) && old(
                self,
            )@.notes[note.uuid] == note@ {
                old(self)@.notes.insert(note.uuid, note@.tagged(NoteDbStatus::FromDb))
            } else {
                old(self)@.notes
            });
        }
    }

    /// Takes in the report of a reconciliation pass that was completed at the
    /// time `now`. A note is tagged `FromDb` if the durable table accepted its
    /// write and the store still holds it as the plan does; the changes that
    /// the plan covered leave the count.
    pub fn complete_flush(&mut self, plan: &FlushPlan, report: &FlushReport, now: u64)
        requires
            old(self).wf(),
        ensures
            final(self).wf(),
            final(self)@ == old(self)@.settled(plan@, report@, now as nat),
    {
        let ghost start = self@.notes;
        let mut k: usize = 0;
        while k < plan.inserts.len()
            invariant
                k <= plan.inserts.len(),
                self.wf(),
                forall|id: u128| start.contains_key(id) ==> (#[trigger] start[id]).uuid == id,
                self@ == (CacheView {
                    notes: confirm(start, plan@.inserts.take(k as int), report@.inserted),
                    ..old(self)@
                }),
            decreases plan.inserts.len() - k,
        {
            proof {
                lemma_confirm_step(start, plan@.inserts, report@.inserted, k as int);
            }
            if k < report.inserted.len() && report.inserted[k] {
                self.confirm_one(&plan.inserts[k]);
            }
            k += 1;
        }
        proof {
            assert(plan@.inserts.take(plan.inserts.len() as int) =~= plan@.inserts);
        }
        let ghost middle = self@.notes;
        let mut k: usize = 0;
        while k < plan.updates.len()
            invariant
                k <= plan.updates.len(),
                self.wf(),
                forall|id: u128| middle.contains_key(id) ==> (#[trigger] middle[id]).uuid == id,
                self@ == (CacheView {
                    notes: confirm(middle, plan@.updates.take(k as int), report@.updates_accepted()),
                    ..old(self)@
                }),
            decreases plan.updates.len() - k,
        {
            proof {
                lemma_confirm_step(middle, plan@.updates, report@.updates_accepted(), k as int);
            }
            if k < report.updated.len() {
                match report.updated[k] {
                    UpdateOutcome::Applied => {
                        self.confirm_one(&plan.updates[k]);
                    },
                    _ => {},
                }
            }
            k += 1;
        }
        proof {
            assert(plan@.updates.take(plan.updates.len() as int) =~= plan@.updates);
        }
        self.tracker.reset(plan.covered, now);
    }
}

} // verus!

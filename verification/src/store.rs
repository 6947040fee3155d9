//! The in-memory store: one shared, immutable snapshot of a note under each
//! identifier.

use crate::note::{Note, NoteView};
use dashmap::DashMap;
use std::sync::Arc;
use vstd::prelude::*;

verus! {

/// `dashmap::DashMap`, which the verifier knows by name only. What a map holds
/// is spoken of through [`stored`].
#[verifier::external_type_specification]
#[verifier::external_body]
#[verifier::reject_recursive_types(K)]
#[verifier::reject_recursive_types(V)]
#[verifier::reject_recursive_types(S)]
pub struct ExDashMap<K, V, S>(DashMap<K, V, S>);

/// What a map of notes holds: the value of the note under each key. The map
/// is private to a [`Store`] and is changed through an exclusive reference
/// only, so what it holds changes with the calls below and with nothing else.
pub uninterp spec fn stored(map: DashMap<u128, Arc<Note>>) -> Map<u128, NoteView>;

/// `DashMap::new`: the map that it returns holds no key.
#[verifier::external_body]
fn map_new() -> (fresh: DashMap<u128, Arc<Note>>)
    ensures
        stored(fresh).dom() =~= Set::<u128>::empty(),
{
    DashMap::new()
}

/// `DashMap::len`: the number of keys that the map holds.
#[verifier::external_body]
fn map_len(map: &DashMap<u128, Arc<Note>>) -> (count: usize)
    ensures
        count == stored(*map).dom().len(),
{
    map.len()
}

/// `DashMap::insert`: afterwards the key holds the given value and every other
/// key holds what it held. The value that the key held before is returned,
/// or `None` if the key was not there.
#[verifier::external_body]
fn map_insert(map: &mut DashMap<u128, Arc<Note>>, key: u128, value: Arc<Note>) -> (previous:
    Option<Arc<Note>>)
    ensures
        stored(*final(map)) == stored(*old(map)).insert(key, value@),
        previous is Some == stored(*old(map)).contains_key(key),
        previous matches Some(note) ==> note@ == stored(*old(map))[key],
{
    map.insert(key, value)
}

/// `DashMap::remove`: afterwards the key is gone and every other key holds
/// what it held. The value that the key held is returned, or `None` if the
/// key was not there.
#[verifier::external_body]
fn map_remove(map: &mut DashMap<u128, Arc<Note>>, key: u128) -> (removed: Option<Arc<Note>>)
    ensures
        stored(*final(map)) == stored(*old(map)).remove(key),
        removed is Some == stored(*old(map)).contains_key(key),
        removed matches Some(note) ==> note@ == stored(*old(map))[key],
{
    map.remove(&key).map(|(_, note)| note)
}

/// `DashMap::get`: the value under the key, if the key is there. The value
/// is handed out as one more reference to the shared note; the map is left
/// as it is.
#[verifier::external_body]
fn map_get(map: &DashMap<u128, Arc<Note>>, key: u128) -> (found: Option<Arc<Note>>)
    ensures
        found is Some == stored(*map).contains_key(key),
        found matches Some(note) ==> note@ == stored(*map)[key],
{
    map.get(&key).map(|entry| Arc::clone(entry.value()))
}

/// `DashMap::iter`, gathered in a vector: every entry of the map once, each
/// key beside one more reference to the note under it. The order is the
/// map's own and nothing is claimed of it.
#[verifier::external_body]
fn map_entries(map: &DashMap<u128, Arc<Note>>) -> (entries: Vec<(u128, Arc<Note>)>)
    ensures
        forall|i: int|
            0 <= i < entries.len() ==> stored(*map).contains_key(#[trigger] entries[i].0)
                && stored(*map)[entries[i].0] == entries[i].1@,
        forall|i: int, j: int|
            0 <= i < j < entries.len() ==> (#[trigger] entries[i]).0 != (#[trigger] entries[j]).0,
        forall|key: u128|
            stored(*map).contains_key(key) ==> exists|i: int|
                0 <= i < entries.len() && (#[trigger] entries[i]).0 == key,
{
    map.iter().map(|entry| (*entry.key(), Arc::clone(entry.value()))).collect()
}

/// Whether `items` names every entry of `notes` exactly once.
pub open spec fn lists(items: Seq<NoteView>, notes: Map<u128, NoteView>) -> bool {
    &&& forall|i: int|
        0 <= i < items.len() ==> notes.contains_key(#[trigger] items[i].uuid) && notes[items[i].uuid]
            == items[i]
    &&& forall|i: int, j: int|
        0 <= i < j < items.len() ==> (#[trigger] items[i]).uuid != (#[trigger] items[j]).uuid
    &&& forall|id: u128|
        notes.contains_key(id) ==> exists|i: int|
            0 <= i < items.len() && (#[trigger] items[i]).uuid == id
}

/// The values of a sequence of shared notes.
pub open spec fn views(notes: Seq<Arc<Note>>) -> Seq<NoteView> {
    notes.map_values(|note: Arc<Note>| note@)
}

/// The notes of the cache, each under its identifier.
pub struct Store {
    map: DashMap<u128, Arc<Note>>,
}

impl View for Store {
    type V = Map<u128, NoteView>;

    closed spec fn view(&self) -> Map<u128, NoteView> {
        stored(self.map)
    }
}

impl Store {
    /// A store is well formed when it holds finitely many notes, each under
    /// its own identifier. Every store that this module hands out is, and every
    /// operation keeps it so.
    pub open spec fn wf(&self) -> bool {
        &&& self@.dom().finite()
        &&& forall|id: u128| self@.contains_key(id) ==> (#[trigger] self@[id]).uuid == id
    }

    /// A store that holds nothing.
    pub fn new() -> (store: Store)
        ensures
            store.wf(),
            store@ == Map::<u128, NoteView>::empty(),
    {
        Store { map: map_new() }
    }

    /// The number of notes in the store.
    pub fn len(&self) -> (count: usize)
        ensures
            count == self@.dom().len(),
    {
        map_len(&self.map)
    }

    /// Whether a note stands under the identifier.
    pub fn contains(&self, id: u128) -> (present: bool)
        ensures
            present == self@.contains_key(id),
    {
        map_get(&self.map, id).is_some()
    }

    /// The current snapshot of the note under the identifier.
    pub fn get(&self, id: u128) -> (found: Option<Arc<Note>>)
        ensures
            found is Some == self@.contains_key(id),
            found matches Some(note) ==> note@ == self@[id],
    {
        map_get(&self.map, id)
    }

    /// Puts the note under its own identifier, in place of the note that
    /// stood there, if any.
    pub fn insert(&mut self, note: Note)
        requires
            old(self).wf(),
        ensures
            final(self).wf(),
            final(self)@ == old(self)@.insert(note.uuid, note@),
    {
        let id = note.uuid;
        let _ = map_insert(&mut self.map, id, Arc::new(note));
    }

    /// A private copy of the note under the identifier, for the caller to
    /// change and to put back with [`Store::insert`]. The store is left as it
    /// is, so a snapshot handed out earlier never shows a change half made.
    pub fn get_for_mutation(&self, id: u128) -> (copy: Option<Note>)
        ensures
            copy is Some == self@.contains_key(id),
            copy matches Some(note) ==> note@ == self@[id],
    {
        match map_get(&self.map, id) {
            Some(note) => Some(note.duplicate()),
            None => None,
        }
    }

    /// Takes the note under the identifier out of the store and hands it
    /// over.
    pub fn remove(&mut self, id: u128) -> (removed: Option<Arc<Note>>)
        requires
            old(self).wf(),
        ensures
            final(self).wf(),
            final(self)@ == old(self)@.remove(id),
            removed is Some == old(self)@.contains_key(id),
            removed matches Some(note) ==> note@ == old(self)@[id],
    {
        map_remove(&mut self.map, id)
    }

    /// Every note of the store once, as it stands now, in no particular
    /// order.
    pub fn snapshot_all(&self) -> (notes: Vec<Arc<Note>>)
        requires
            self.wf(),
        ensures
            lists(views(notes@), self@),
    {
        let mut entries = map_entries(&self.map);
        let ghost all = entries@;
        let mut notes: Vec<Arc<Note>> = Vec::new();
        while entries.len() > 0
            invariant
                self.wf(),
                entries@.len() + notes@.len() == all.len(),
                entries@ == all.subrange(0, entries@.len() as int),
                forall|k: int|
                    0 <= k < notes@.len() ==> (#[trigger] notes@[k])@ == all[all.len() - 1 - k].1@,
                forall|i: int|
                    0 <= i < all.len() ==> stored(self.map).contains_key(#[trigger] all[i].0)
                        && stored(self.map)[all[i].0] == all[i].1@,
            decreases entries.len(),
        {
            let entry = entries.pop().unwrap();
            notes.push(entry.1);
        }
        proof {
            let items = views(notes@);
            assert forall|i: int| 0 <= i < items.len() implies self@.contains_key(
                #[trigger] items[i].uuid,
            ) && self@[items[i].uuid] == items[i] by {
                let e = all[all.len() - 1 - i];
                assert(stored(self.map).contains_key(e.0));
                assert(items[i] == notes@[i]@);
            }
            assert forall|i: int, j: int| 0 <= i < j < items.len() implies (#[trigger] items[i]).uuid
                != (#[trigger] items[j]).uuid by {
                let a = all[all.len() - 1 - i];
                let b = all[all.len() - 1 - j];
                assert(stored(self.map).contains_key(a.0));
                assert(stored(self.map).contains_key(b.0));
                assert(items[i] == notes@[i]@);
                assert(items[j] == notes@[j]@);
            }
            assert forall|id: u128| self@.contains_key(id) implies exists|i: int|
                0 <= i < items.len() && (#[trigger] items[i]).uuid == id by {
                let k = choose|k: int| 0 <= k < all.len() && (#[trigger] all[k]).0 == id;
                let i = all.len() - 1 - k;
                assert(stored(self.map).contains_key(all[k].0));
                assert(items[i] == notes@[i]@);
                assert(items[i].uuid == id);
            }
        }
        notes
    }
}

} // verus!

//! The tombstone buffer: the notes that were removed from the store and whose
//! rows still wait to be deleted.

use crate::note::{Note, NoteView};
use crate::store::views;
use std::sync::Arc;
use vstd::prelude::*;

verus! {

/// The identifiers of a sequence of notes, in its order.
pub open spec fn ids_of(notes: Seq<NoteView>) -> Seq<u128> {
    notes.map_values(|note: NoteView| note.uuid)
}

/// The removed notes, in the order in which they were removed.
pub struct TombstoneBuffer {
    notes: Vec<Arc<Note>>,
}

impl View for TombstoneBuffer {
    type V = Seq<NoteView>;

    closed spec fn view(&self) -> Seq<NoteView> {
        views(self.notes@)
    }
}

impl TombstoneBuffer {
    /// A buffer that holds nothing.
    pub fn new() -> (buffer: TombstoneBuffer)
        ensures
            buffer@ == Seq::<NoteView>::empty(),
    {
        TombstoneBuffer { notes: Vec::new() }
    }

    /// The number of notes that wait in the buffer.
    pub fn len(&self) -> (count: usize)
        ensures
            count == self@.len(),
    {
        self.notes.len()
    }

    /// Whether a note with this identifier waits in the buffer.
    pub fn holds(&self, id: u128) -> (held: bool)
        ensures
            held == ids_of(self@).contains(id),
    {
        let mut i: usize = 0;
        while i < self.notes.len()
            invariant
                i <= self.notes.len(),
                forall|j: int| 0 <= j < i ==> ids_of(self@)[j] != id,
            decreases self.notes.len() - i,
        {
            if self.notes[i].uuid == id {
                assert(ids_of(self@)[i as int] == id);
                return true;
            }
            i += 1;
        }
        false
    }

    /// Appends a removed note.
    pub fn push(&mut self, note: Arc<Note>)
        ensures
            final(self)@ == old(self)@.push(note@),
    {
        self.notes.push(note);
        assert(views(self.notes@) =~= views(old(self).notes@).push(note@));
    }

    /// Takes every note out of the buffer, in the order in which they came,
    /// and leaves the buffer empty.
    pub fn drain(&mut self) -> (drained: Vec<Arc<Note>>)
        ensures
            views(drained@) == old(self)@,
            final(self)@ == Seq::<NoteView>::empty(),
    {
        let mut drained: Vec<Arc<Note>> = Vec::new();
        std::mem::swap(&mut self.notes, &mut drained);
        drained
    }
}

} // verus!

//! What a caller sends: the identifier of a note, or a note's full set of
//! fields.

use crate::note::Status;
use vstd::prelude::*;

verus! {

/// The identifier of the note that a request is about.
#[derive(Clone, Copy, Debug, PartialEq, Eq)]
pub struct Uuid {
    pub uuid: u128,
}

/// The fields of a note as a caller supplies them. The lifecycle tag is not
/// among them: it belongs to the cache.
#[derive(Clone, Debug, PartialEq, Eq)]
pub struct Note {
    pub uuid: u128,
    pub title: String,
    pub status: Status,
    pub mod_time: i64,
    pub description: String,
}

/// The mathematical value of a [`Note`] payload.
pub struct NoteFields {
    pub uuid: u128,
    pub title: Seq<char>,
    pub status: Status,
    pub mod_time: i64,
    pub description: Seq<char>,
}

impl View for Note {
    type V = NoteFields;

    open spec fn view(&self) -> NoteFields {
        NoteFields {
            uuid: self.uuid,
            title: self.title@,
            status: self.status,
            mod_time: self.mod_time,
            description: self.description@,
        }
    }
}

} // verus!

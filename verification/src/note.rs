//! The note record, its two enumerations, and the text form of a status.

use vstd::prelude::*;

verus! {

/// How far along a note is, as its author sees it.
#[derive(Clone, Copy, Debug, PartialEq, Eq, Structural)]
pub enum Status {
    Active,
    Archived,
    Completed,
}

/// Where a cached note stands with respect to the durable table.
///
/// `New` notes were created in this process and never written, `FromDb` notes
/// are known to match their row, `Updated` notes were changed after they were
/// loaded or created.
#[derive(Clone, Copy, Debug, PartialEq, Eq, Structural)]
pub enum NoteDbStatus {
    New,
    FromDb,
    Updated,
}

/// The lower-case form of an ASCII capital; every other character is kept.
pub open spec fn lower(c: char) -> char {
    if 'A' <= c && c <= 'Z' {
        ((c as u8) + 32) as char
    } else {
        c
    }
}

/// A text with each ASCII capital replaced by its lower-case form.
pub open spec fn folded(text: Seq<char>) -> Seq<char> {
    text.map_values(|c: char| lower(c))
}

fn to_lower(c: char) -> (low: char)
    ensures
        low == lower(c),
{
    if 'A' <= c && c <= 'Z' {
        ((c as u8) + 32) as char
    } else {
        c
    }
}

/// Whether `text`, read without regard to the case of ASCII letters, is `word`.
fn reads_as(text: &str, word: &str) -> (same: bool)
    ensures
        same == (folded(text@) == word@),
{
    let n = text.unicode_len();
    if n != word.unicode_len() {
        return false;
    }
    let mut i: usize = 0;
    while i < n
        invariant
            i <= n,
            n == text@.len(),
            n == word@.len(),
            forall|j: int| 0 <= j < i ==> lower(text@[j]) == word@[j],
        decreases n - i,
    {
        if to_lower(text.get_char(i)) != word.get_char(i) {
            assert(folded(text@)[i as int] != word@[i as int]);
            return false;
        }
        i += 1;
    }
    assert(folded(text@) =~= word@);
    true
}

impl Status {
    /// The name under which a status is written to the durable table.
    pub open spec fn text(self) -> Seq<char> {
        match self {
            Status::Active => "Active"@,
            Status::Archived => "Archived"@,
            Status::Completed => "Completed"@,
        }
    }

    /// The status that a text names, if it names one. Case is not looked at.
    pub open spec fn of_text(text: Seq<char>) -> Option<Status> {
        if folded(text) == "active"@ {
            Some(Status::Active)
        } else if folded(text) == "archived"@ {
            Some(Status::Archived)
        } else if folded(text) == "completed"@ {
            Some(Status::Completed)
        } else {
            None
        }
    }

    /// The name of the status, as the durable table holds it.
    pub fn as_str(&self) -> (name: &'static str)
        ensures
            name@ == self.text(),
    {
        match self {
            Status::Active => "Active",
            Status::Archived => "Archived",
            Status::Completed => "Completed",
        }
    }

    /// Reads a status from its name, whatever the case of its letters.
    pub fn from_text(text: &str) -> (status: Option<Status>)
        ensures
            status == Status::of_text(text@),
    {
        if reads_as(text, "active") {
            Some(Status::Active)
        } else if reads_as(text, "archived") {
            Some(Status::Archived)
        } else if reads_as(text, "completed") {
            Some(Status::Completed)
        } else {
            None
        }
    }

    /// Every status is read back from its own name.
    pub proof fn lemma_text_round_trip(self)
        ensures
            Status::of_text(self.text()) == Some(self),
    {
        reveal_strlit("Active");
        reveal_strlit("Archived");
        reveal_strlit("Completed");
        reveal_strlit("active");
        reveal_strlit("archived");
        reveal_strlit("completed");
        assert(folded("Active"@) =~= "active"@);
        assert(folded("Archived"@) =~= "archived"@);
        assert(folded("Completed"@) =~= "completed"@);
    }
}

impl Default for NoteDbStatus {
    fn default() -> (tag: NoteDbStatus)
        ensures
            tag == NoteDbStatus::New,
    {
        NoteDbStatus::New
    }
}

/// A note as the cache holds it.
#[derive(Clone, Debug, PartialEq, Eq)]
pub struct Note {
    pub uuid: u128,
    pub db_status: NoteDbStatus,
    pub title: String,
    pub status: Status,
    pub mod_time: i64,
    pub description: String,
}

/// The mathematical value of a [`Note`].
pub struct NoteView {
    pub uuid: u128,
    pub db_status: NoteDbStatus,
    pub title: Seq<char>,
    pub status: Status,
    pub mod_time: i64,
    pub description: Seq<char>,
}

impl View for Note {
    type V = NoteView;

    open spec fn view(&self) -> NoteView {
        NoteView {
            uuid: self.uuid,
            db_status: self.db_status,
            title: self.title@,
            status: self.status,
            mod_time: self.mod_time,
            description: self.description@,
        }
    }
}

impl NoteView {
    /// The same note under another lifecycle tag.
    pub open spec fn tagged(self, tag: NoteDbStatus) -> NoteView {
        NoteView { db_status: tag, ..self }
    }

    /// A note is dirty while the durable table may differ from it.
    pub open spec fn is_dirty(self) -> bool {
        self.db_status != NoteDbStatus::FromDb
    }
}

impl Note {
    /// A private copy of the note, field for field.
    pub fn duplicate(&self) -> (copy: Note)
        ensures
            copy@ == self@,
    {
        Note {
            uuid: self.uuid,
            db_status: self.db_status,
            title: self.title.clone(),
            status: self.status,
            mod_time: self.mod_time,
            description: self.description.clone(),
        }
    }

    /// A copy of the note under another lifecycle tag.
    pub fn retagged(&self, tag: NoteDbStatus) -> (copy: Note)
        ensures
            copy@ == self@.tagged(tag),
    {
        let mut copy = self.duplicate();
        copy.db_status = tag;
        copy
    }

    /// Whether two notes agree in every field, the tag included.
    pub fn same_as(&self, other: &Note) -> (same: bool)
        ensures
            same == (self@ == other@),
    {
        self.uuid == other.uuid && self.db_status == other.db_status && self.title == other.title
            && self.status == other.status && self.mod_time == other.mod_time
            && self.description == other.description
    }

    /// Whether the durable table may differ from this note.
    pub fn is_dirty(&self) -> (dirty: bool)
        ensures
            dirty == self@.is_dirty(),
    {
        self.db_status != NoteDbStatus::FromDb
    }
}

} // verus!

//! The durable table as the cache addresses it: the statements of a pass, the
//! rows of a warm start, and what a probe for a row allows.

use crate::error::{RowError, StartupFailure};
use crate::flush::UpdateOutcome;
use crate::ident::{id_from_text, id_to_text, uuid_parsed, uuid_text};
use crate::note::{Note, NoteDbStatus, NoteView, Status};
use std::sync::Arc;
use vstd::prelude::*;

verus! {

/// Reads every row of the table.
pub const SELECT_NOTES: &'static str =
    "SELECT uuid, title, description, status, mod_time FROM notes";

/// Inserts one row; the parameters are the identifier, the title, the
/// description, the status and the modification time.
pub const INSERT_NOTE: &'static str =
    "INSERT INTO notes (uuid, title, description, status, mod_time) VALUES (?1, ?2, ?3, ?4, ?5)";

/// Asks whether a row is there; the parameter is the identifier.
pub const PROBE_NOTE: &'static str = "SELECT 1 FROM notes WHERE uuid = ?1 LIMIT 1";

/// Overwrites one row; the parameters are the title, the description, the
/// status, the modification time and the identifier.
pub const UPDATE_NOTE: &'static str =
    "UPDATE notes SET title = ?1, description = ?2, status = ?3, mod_time = ?4 WHERE uuid = ?5";

/// Deletes one row; the parameter is the identifier.
pub const DELETE_NOTE: &'static str = "DELETE FROM notes WHERE uuid = ?1";

/// A value bound to a parameter of a statement.
#[derive(Clone, Debug, PartialEq, Eq)]
pub enum SqlValue {
    Text(String),
    Integer(i64),
}

/// The mathematical value of a [`SqlValue`].
pub enum SqlValueView {
    Text(Seq<char>),
    Integer(i64),
}

impl View for SqlValue {
    type V = SqlValueView;

    open spec fn view(&self) -> SqlValueView {
        match self {
            SqlValue::Text(text) => SqlValueView::Text(text@),
            SqlValue::Integer(number) => SqlValueView::Integer(*number),
        }
    }
}

/// A statement with the values of its parameters, in their order.
#[derive(Clone, Debug, PartialEq, Eq)]
pub struct Statement {
    pub sql: &'static str,
    pub params: Vec<SqlValue>,
}

/// The mathematical value of a [`Statement`].
#[verifier::ext_equal]
pub struct StatementView {
    pub sql: Seq<char>,
    pub params: Seq<SqlValueView>,
}

impl View for Statement {
    type V = StatementView;

    open spec fn view(&self) -> StatementView {
        StatementView { sql: self.sql@, params: self.params@.map_values(|value: SqlValue| value@) }
    }
}

/// The statement that inserts the row of a note, with `id_text` for the text
/// of its identifier.
pub open spec fn insert_of(id_text: Seq<char>, note: NoteView) -> StatementView {
    StatementView {
        sql: INSERT_NOTE@,
        params: seq![
            SqlValueView::Text(id_text),
            SqlValueView::Text(note.title),
            SqlValueView::Text(note.description),
            SqlValueView::Text(note.status.text()),
            SqlValueView::Integer(note.mod_time),
        ],
    }
}

/// The statement that asks whether the row under the identifier with the text
/// `id_text` is there.
pub open spec fn probe_of(id_text: Seq<char>) -> StatementView {
    StatementView { sql: PROBE_NOTE@, params: seq![SqlValueView::Text(id_text)] }
}

/// The statement that overwrites the row of a note, with `id_text` for the
/// text of its identifier.
pub open spec fn update_of(id_text: Seq<char>, note: NoteView) -> StatementView {
    StatementView {
        sql: UPDATE_NOTE@,
        params: seq![
            SqlValueView::Text(note.title),
            SqlValueView::Text(note.description),
            SqlValueView::Text(note.status.text()),
            SqlValueView::Integer(note.mod_time),
            SqlValueView::Text(id_text),
        ],
    }
}

/// The statement that deletes the row under the identifier with the text
/// `id_text`.
pub open spec fn delete_of(id_text: Seq<char>) -> StatementView {
    StatementView { sql: DELETE_NOTE@, params: seq![SqlValueView::Text(id_text)] }
}

fn text_of(text: &String) -> (value: SqlValue)
    ensures
        value@ == SqlValueView::Text(text@),
{
    SqlValue::Text(text.clone())
}

fn status_text(status: Status) -> (value: SqlValue)
    ensures
        value@ == SqlValueView::Text(status.text()),
{
    SqlValue::Text(status.as_str().to_owned())
}

/// The statement that inserts the row of a note, with `id_text` for the text
/// of its identifier.
pub fn insert_statement(id_text: String, note: &Note) -> (statement: Statement)
    ensures
        statement@ == insert_of(id_text@, note@),
{
    let mut params: Vec<SqlValue> = Vec::new();
    params.push(SqlValue::Text(id_text));
    params.push(text_of(&note.title));
    params.push(text_of(&note.description));
    params.push(status_text(note.status));
    params.push(SqlValue::Integer(note.mod_time));
    let statement = Statement { sql: INSERT_NOTE, params };
    assert(statement@.params =~= insert_of(id_text@, note@).params);
    statement
}

/// The statement that asks whether the row under the identifier with the text
/// `id_text` is there.
pub fn probe_statement(id_text: String) -> (statement: Statement)
    ensures
        statement@ == probe_of(id_text@),
{
    let mut params: Vec<SqlValue> = Vec::new();
    params.push(SqlValue::Text(id_text));
    let statement = Statement { sql: PROBE_NOTE, params };
    assert(statement@.params =~= probe_of(id_text@).params);
    statement
}

/// The statement that overwrites the row of a note, with `id_text` for the
/// text of its identifier.
pub fn update_statement(id_text: String, note: &Note) -> (statement: Statement)
    ensures
        statement@ == update_of(id_text@, note@),
{
    let mut params: Vec<SqlValue> = Vec::new();
    params.push(text_of(&note.title));
    params.push(text_of(&note.description));
    params.push(status_text(note.status));
    params.push(SqlValue::Integer(note.mod_time));
    params.push(SqlValue::Text(id_text));
    let statement = Statement { sql: UPDATE_NOTE, params };
    assert(statement@.params =~= update_of(id_text@, note@).params);
    statement
}

/// The statement that deletes the row under the identifier with the text
/// `id_text`.
pub fn delete_statement(id_text: String) -> (statement: Statement)
    ensures
        statement@ == delete_of(id_text@),
{
    let mut params: Vec<SqlValue> = Vec::new();
    params.push(SqlValue::Text(id_text));
    let statement = Statement { sql: DELETE_NOTE, params };
    assert(statement@.params =~= delete_of(id_text@).params);
    statement
}

/// The two statements that the update of one note takes: the probe for its
/// row, and the write that follows if the row is there.
#[derive(Clone, Debug, PartialEq, Eq)]
pub struct UpdateStep {
    pub probe: Statement,
    pub write: Statement,
}

/// The insert batch: one statement for each note, in the order of the notes.
/// Each is to be attempted, whatever became of the ones before it.
pub fn insert_many(notes: &Vec<Arc<Note>>) -> (statements: Vec<Statement>)
    ensures
        statements@.len() == notes@.len(),
        forall|i: int|
            0 <= i < notes@.len() ==> (#[trigger] statements@[i])@ == insert_of(
                uuid_text(notes@[i].uuid),
                notes@[i]@,
            ),
{
    let mut statements: Vec<Statement> = Vec::new();
    let mut i: usize = 0;
    while i < notes.len()
        invariant
            i <= notes.len(),
            statements@.len() == i,
            forall|j: int|
                0 <= j < i ==> (#[trigger] statements@[j])@ == insert_of(
                    uuid_text(notes@[j].uuid),
                    notes@[j]@,
                ),
        decreases notes.len() - i,
    {
        let note = &notes[i];
        statements.push(insert_statement(id_to_text(note.uuid), note));
        i += 1;
    }
    statements
}

/// The update batch: for each note, in the order of the notes, the probe for
/// its row and the write. The write is to be attempted only where the probe
/// permits it; a row that is gone is passed over.
pub fn update_many(notes: &Vec<Arc<Note>>) -> (steps: Vec<UpdateStep>)
    ensures
        steps@.len() == notes@.len(),
        forall|i: int|
            0 <= i < notes@.len() ==> (#[trigger] steps@[i]).probe@ == probe_of(
                uuid_text(notes@[i].uuid),
            ) && steps@[i].write@ == update_of(uuid_text(notes@[i].uuid), notes@[i]@),
{
    let mut steps: Vec<UpdateStep> = Vec::new();
    let mut i: usize = 0;
    while i < notes.len()
        invariant
            i <= notes.len(),
            steps@.len() == i,
            forall|j: int|
                0 <= j < i ==> (#[trigger] steps@[j]).probe@ == probe_of(
                    uuid_text(notes@[j].uuid),
                ) && steps@[j].write@ == update_of(uuid_text(notes@[j].uuid), notes@[j]@),
        decreases notes.len() - i,
    {
        let note = &notes[i];
        let probe = probe_statement(id_to_text(note.uuid));
        let write = update_statement(id_to_text(note.uuid), note);
        steps.push(UpdateStep { probe, write });
        i += 1;
    }
    steps
}

/// The delete batch: one statement for each identifier, in their order. A row
/// that is gone already makes its statement a no-op.
pub fn delete_many(ids: &Vec<u128>) -> (statements: Vec<Statement>)
    ensures
        statements@.len() == ids@.len(),
        forall|i: int|
            0 <= i < ids@.len() ==> (#[trigger] statements@[i])@ == delete_of(uuid_text(ids@[i])),
{
    let mut statements: Vec<Statement> = Vec::new();
    let mut i: usize = 0;
    while i < ids.len()
        invariant
            i <= ids.len(),
            statements@.len() == i,
            forall|j: int|
                0 <= j < i ==> (#[trigger] statements@[j])@ == delete_of(uuid_text(ids@[j])),
        decreases ids.len() - i,
    {
        statements.push(delete_statement(id_to_text(ids[i])));
        i += 1;
    }
    statements
}

/// What a probe for a row found.
#[derive(Clone, Copy, Debug, PartialEq, Eq, Structural)]
pub enum RowProbe {
    /// The row is there.
    Present,
    /// The row is gone.
    Absent,
    /// The durable table failed to answer.
    Failed,
}

impl RowProbe {
    /// The outcome that a probe settles by itself, if it does: a row that is
    /// gone is skipped, a probe that failed leaves the note unchecked. Where
    /// the row is there nothing is settled yet, and the write decides.
    pub open spec fn settles(self) -> Option<UpdateOutcome> {
        match self {
            RowProbe::Present => None,
            RowProbe::Absent => Some(UpdateOutcome::Skipped),
            RowProbe::Failed => Some(UpdateOutcome::Unchecked),
        }
    }

    /// The outcome that the probe settles by itself; `None` where the write
    /// is to be attempted.
    pub fn verdict(&self) -> (outcome: Option<UpdateOutcome>)
        ensures
            outcome == self.settles(),
    {
        match self {
            RowProbe::Present => None,
            RowProbe::Absent => Some(UpdateOutcome::Skipped),
            RowProbe::Failed => Some(UpdateOutcome::Unchecked),
        }
    }
}

/// The outcome of an update whose write was attempted.
pub fn write_outcome(accepted: bool) -> (outcome: UpdateOutcome)
    ensures
        outcome == if accepted {
            UpdateOutcome::Applied
        } else {
            UpdateOutcome::Rejected
        },
{
    if accepted {
        UpdateOutcome::Applied
    } else {
        UpdateOutcome::Rejected
    }
}

/// A row of the durable table, as it is read.
#[derive(Clone, Debug, PartialEq, Eq)]
pub struct Row {
    pub uuid: String,
    pub title: String,
    pub description: String,
    pub status: String,
    pub mod_time: i64,
}

/// The mathematical value of a [`Row`].
pub struct RowView {
    pub uuid: Seq<char>,
    pub title: Seq<char>,
    pub description: Seq<char>,
    pub status: Seq<char>,
    pub mod_time: i64,
}

impl View for Row {
    type V = RowView;

    open spec fn view(&self) -> RowView {
        RowView {
            uuid: self.uuid@,
            title: self.title@,
            description: self.description@,
            status: self.status@,
            mod_time: self.mod_time,
        }
    }
}

/// The note that a row stands for, given what was read from the text of its
/// identifier. The identifier is looked at first, then the status.
pub open spec fn note_of_row(id: Option<u128>, row: RowView) -> Result<NoteView, RowError> {
    if id is None {
        Err(RowError::InvalidIdentifier)
    } else if Status::of_text(row.status) is None {
        Err(RowError::InvalidStatus)
    } else {
        Ok(
            NoteView {
                uuid: id->0,
                db_status: NoteDbStatus::FromDb,
                title: row.title,
                status: Status::of_text(row.status)->0,
                mod_time: row.mod_time,
                description: row.description,
            },
        )
    }
}

/// Makes a note, tagged `FromDb`, of a row and of what was read from the text
/// of its identifier.
pub fn row_note(id: Option<u128>, row: Row) -> (result: Result<Note, RowError>)
    ensures
        result is Ok == note_of_row(id, row@) is Ok,
        result matches Ok(note) ==> note_of_row(id, row@) == Ok::<NoteView, RowError>(note@),
        result matches Err(error) ==> note_of_row(id, row@) == Err::<NoteView, RowError>(error),
{
    let uuid = match id {
        Some(uuid) => uuid,
        None => {
            return Err(RowError::InvalidIdentifier);
        },
    };
    let status = match Status::from_text(row.status.as_str()) {
        Some(status) => status,
        None => {
            return Err(RowError::InvalidStatus);
        },
    };
    Ok(
        Note {
            uuid,
            db_status: NoteDbStatus::FromDb,
            title: row.title,
            status,
            mod_time: row.mod_time,
            description: row.description,
        },
    )
}

/// Makes a note, tagged `FromDb`, of a row.
pub fn read_row(row: Row) -> (result: Result<Note, RowError>)
    ensures
        result is Ok == note_of_row(uuid_parsed(row@.uuid), row@) is Ok,
        result matches Ok(note) ==> note_of_row(uuid_parsed(row@.uuid), row@) == Ok::<
            NoteView,
            RowError,
        >(note@),
        result matches Err(error) ==> note_of_row(uuid_parsed(row@.uuid), row@) == Err::<
            NoteView,
            RowError,
        >(error),
{
    let id = id_from_text(row.uuid.as_str());
    row_note(id, row)
}

/// The notes of a warm start: one for each row, in the order of the rows, each
/// tagged `FromDb`. The first row that is no note fails the whole.
pub fn load_all(rows: Vec<Row>) -> (result: Result<Vec<Note>, StartupFailure>)
    ensures
        match result {
            Ok(notes) => {
                &&& notes@.len() == rows@.len()
                &&& forall|i: int|
                    0 <= i < rows@.len() ==> note_of_row(
                        uuid_parsed(rows@[i]@.uuid),
                        #[trigger] rows@[i]@,
                    ) == Ok::<NoteView, RowError>(notes@[i]@)
            },
            Err(failure) => {
                &&& failure.row < rows@.len()
                &&& note_of_row(uuid_parsed(rows@[failure.row as int]@.uuid), rows@[failure.row as int]@)
                    == Err::<NoteView, RowError>(failure.error)
                &&& forall|i: int|
                    0 <= i < failure.row ==> note_of_row(
                        uuid_parsed(rows@[i]@.uuid),
                        #[trigger] rows@[i]@,
                    ) is Ok
            },
        },
{
    let mut pending = rows;
    let mut notes: Vec<Note> = Vec::new();
    let mut i: usize = 0;
    while i < pending.len()
        invariant
            i <= pending.len(),
            pending@.len() == rows@.len(),
            notes@.len() == i,
            forall|j: int| i <= j < rows@.len() ==> pending@[j] == rows@[j],
            forall|j: int|
                0 <= j < i ==> note_of_row(uuid_parsed(rows@[j]@.uuid), #[trigger] rows@[j]@)
                    == Ok::<NoteView, RowError>(notes@[j]@),
        decreases pending.len() - i,
    {
        let mut row = Row {
            uuid: String::new(),
            title: String::new(),
            description: String::new(),
            status: String::new(),
            mod_time: 0,
        };
        std::mem::swap(&mut pending[i], &mut row);
        assert(row == rows@[i as int]);
        match read_row(row) {
            Ok(note) => notes.push(note),
            Err(error) => {
                return Err(StartupFailure { row: i, error });
            },
        }
        i += 1;
    }
    Ok(notes)
}

} // verus!

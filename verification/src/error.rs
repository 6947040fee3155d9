//! What can go wrong on the request path and at start-up.

use vstd::prelude::*;

verus! {

/// A request named a note that the cache does not hold.
#[derive(Clone, Copy, Debug, PartialEq, Eq, Structural)]
pub enum RequestError {
    NotFound,
}

/// Why a row is no note.
#[derive(Clone, Copy, Debug, PartialEq, Eq, Structural)]
pub enum RowError {
    /// The text of the identifier names no identifier.
    InvalidIdentifier,
    /// The text of the status names no status.
    InvalidStatus,
}

/// A row of the durable table that is no note: the warm start fails on it.
#[derive(Clone, Copy, Debug, PartialEq, Eq, Structural)]
pub struct StartupFailure {
    /// The place of the row among the rows read, from zero.
    pub row: usize,
    pub error: RowError,
}

} // verus!

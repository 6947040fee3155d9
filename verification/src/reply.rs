//! What a caller is told about a request that named a note.

use crate::error::RequestError;
use vstd::prelude::*;

verus! {

/// The code of a reply to a request that was carried out.
pub const OK: u16 = 200;

/// The code of a reply to a request that named a note which is not there.
pub const NOT_FOUND: u16 = 404;

/// The status line of a reply to an update that was carried out.
pub const UPDATED: &'static str = "note updated successfully";

/// The status line of a reply to a removal that was carried out.
pub const REMOVED: &'static str = "note removed successfully";

/// The status line of a reply to a request that named a note which is not
/// there.
pub const MISSING: &'static str = "note not found";

/// A reply: its code and its status line.
#[derive(Clone, Copy, Debug, PartialEq, Eq)]
pub struct Reply {
    pub code: u16,
    pub status: &'static str,
}

/// The reply to an update.
pub fn update_reply(result: Result<(), RequestError>) -> (reply: Reply)
    ensures
        result is Ok ==> reply.code == OK && reply.status@ == UPDATED@,
        result is Err ==> reply.code == NOT_FOUND && reply.status@ == MISSING@,
{
    match result {
        Ok(()) => Reply { code: OK, status: UPDATED },
        Err(RequestError::NotFound) => Reply { code: NOT_FOUND, status: MISSING },
    }
}

/// The reply to a removal.
pub fn remove_reply(result: Result<(), RequestError>) -> (reply: Reply)
    ensures
        result is Ok ==> reply.code == OK && reply.status@ == REMOVED@,
        result is Err ==> reply.code == NOT_FOUND && reply.status@ == MISSING@,
{
    match result {
        Ok(()) => Reply { code: OK, status: REMOVED },
        Err(RequestError::NotFound) => Reply { code: NOT_FOUND, status: MISSING },
    }
}

} // verus!

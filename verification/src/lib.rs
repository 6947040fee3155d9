//! A write-back cache of notes: the notes live in memory, every change is
//! counted, and a background worker carries the changes to a durable table
//! once enough of them have gathered or enough time has passed.

pub mod backend;
pub mod cache;
pub mod error;
pub mod flush;
pub mod ident;
pub mod json;
pub mod laws;
pub mod note;
pub mod qr;
pub mod reply;
pub mod store;
pub mod tombstones;
pub mod tracker;
pub mod worker;

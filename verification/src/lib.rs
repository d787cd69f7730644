//! An in-memory store of agricultural incident reports.
//!
//! Every record is kept under a unique identifier, either supplied by the
//! reporter or minted from a counter, and carries an append-only audit
//! trail of the changes applied to it.

pub mod laws;
pub mod model;
pub mod protocol;
pub mod storage;
pub mod text;
pub mod types;

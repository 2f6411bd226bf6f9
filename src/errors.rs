//! Failures of the ledger store.

use vstd::prelude::*;

verus! {

/// A failed store operation, with the cause where there is one.
#[derive(Clone, Debug, PartialEq, Eq)]
pub enum DataStoreError {
    /// The storage could not be reached.
    Connection,
    /// A read failed.
    QueryError(String),
    /// A write of new rows was rejected.
    InsertError(String),
    /// An overwrite of existing rows was rejected.
    UpdateError(String),
    /// A removal was rejected.
    DeleteError(String),
}

} // verus!

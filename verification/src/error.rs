//! The ways in which an operation on the ledger can fail.

use vstd::prelude::*;

verus! {

/// Why an operation on the storage was refused.
#[derive(Clone, Copy, Debug, PartialEq, Eq, Structural)]
pub enum StorageError {
    /// The storage could not be opened with the given configuration.
    StorageOpenError,
    /// An append named a block other than the next one.
    OutOfOrderAppend,
    /// A revert named a block other than the last one.
    NotTip,
    /// A read-write transaction is already open, or the handle given back
    /// does not belong to an open one.
    TransactionConflict,
    /// Stored bytes are not the encoding of any valid value.
    CodecError,
    /// The engine that keeps the bytes failed.
    SubstrateIOError,
    /// A sequencer address is not below 2^251.
    AddressOutOfRange,
}

} // verus!

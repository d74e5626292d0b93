//! Failures of reading the registry and of classifying submissions.

use vstd::prelude::*;
use crate::address::AddressError;
use crate::word::Word;

verus! {

/// A numeric field of a contract record.
#[derive(Debug, Clone, Copy, PartialEq, Eq, Structural)]
pub enum Field {
    ApiPort,
    Capacity,
    AppId,
    ClusterSize,
    GenesisTime,
}

/// Why one contract record could not be turned into an entity.
#[derive(Debug, Clone, Copy, PartialEq, Eq, Structural)]
pub enum DecodeError {
    /// The field's value does not fit the width the entity gives it.
    OutOfRange(Field),
    /// The node's peer address is malformed.
    Address(AddressError),
}

/// Why reading the registry, or classifying a submission, failed.
#[derive(Debug, Clone, Copy, PartialEq, Eq)]
pub enum Error {
    /// The node with this validator key could not be decoded.
    Node { id: Word, cause: DecodeError },
    /// The application with this id could not be decoded.
    App { app_id: u64, cause: DecodeError },
    /// An application id of the id list does not fit 64 bits.
    AppIdList,
    /// The number of fetched records differs from the number of ids.
    RecordCount,
    /// The confirmed transaction emitted no recognized event.
    Classification { tx: Word },
    /// The confirmed transaction emitted more than one recognized event.
    ConflictingEvents { tx: Word },
}

} // verus!

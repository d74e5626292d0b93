//! The off-chain store that holds an application's code.

use vstd::prelude::*;
use crate::word::Word;

verus! {

/// Storage backend named by the last byte of the contract's storage-type word.
#[derive(Debug, Clone, Copy, PartialEq, Eq, Structural)]
pub enum Storage {
    Swarm,
    Ipfs,
    /// Any byte value that names no known backend.
    Unknown,
}

/// Backend named by a storage-type byte: 0 is Swarm, 1 is IPFS, anything else unknown.
pub open spec fn storage_of_byte(b: u8) -> Storage {
    if b == 0 {
        Storage::Swarm
    } else if b == 1 {
        Storage::Ipfs
    } else {
        Storage::Unknown
    }
}

impl Storage {
    /// Backend named by a storage-type byte.
    pub fn from_byte(b: u8) -> (r: Storage)
        ensures
            r == storage_of_byte(b),
    {
        if b == 0 {
            Storage::Swarm
        } else if b == 1 {
            Storage::Ipfs
        } else {
            Storage::Unknown
        }
    }

    /// Backend named by a 32-byte storage-type word: its byte 31 alone decides.
    pub fn from_word(w: &Word) -> (r: Storage)
        ensures
            r == storage_of_byte(w@[31]),
    {
        Storage::from_byte(w[31])
    }
}

} // verus!

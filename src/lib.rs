//! Typed views of the node and application registry kept by the network's
//! contract, and the classification of state-changing submissions.

pub mod word;
pub mod address;
pub mod storage;
pub mod model;
pub mod error;
pub mod registry;
pub mod outcome;

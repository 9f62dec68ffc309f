//! A block-ordered ledger of headers and state diffs with transactional
//! appends and reverts.

pub mod codec;
pub mod error;
pub mod felt;
pub mod header;
pub mod keys;
pub mod laws;
pub mod ledger;
pub mod state_diff;
pub mod storage;

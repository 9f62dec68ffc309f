//! Block headers, and how one is made from what a block's producer reports.

use crate::error::StorageError;
use crate::felt::{u64_felt_bytes, zero_felt_bytes, Felt};
use vstd::prelude::*;

verus! {

/// What is recorded of a block besides its state diff.
#[derive(Clone, Copy, Debug, PartialEq, Eq)]
pub struct BlockHeader {
    pub block_hash: Felt,
    pub parent_hash: Felt,
    pub block_number: u64,
    pub timestamp: u64,
    pub sequencer_address: Felt,
    pub gas_price: u128,
    pub state_root: Felt,
}

/// What the producer of a block reports about it.
#[derive(Clone, Copy, Debug, PartialEq, Eq)]
pub struct BlockInfo {
    pub block_number: u64,
    pub block_timestamp: u64,
    pub sequencer_address: Felt,
    pub gas_price: u128,
}

/// The header that `from_block_info` makes of its arguments.
pub open spec fn is_header_of(
    h: BlockHeader,
    block_id: u64,
    previous_block_id: u64,
    info: BlockInfo,
) -> bool {
    &&& h.block_hash@ == u64_felt_bytes(block_id)
    &&& h.parent_hash@ == u64_felt_bytes(previous_block_id)
    &&& h.block_number == info.block_number
    &&& h.timestamp == info.block_timestamp
    &&& h.sequencer_address == info.sequencer_address
    &&& h.gas_price == info.gas_price
    &&& h.state_root@ == zero_felt_bytes()
}

impl BlockHeader {
    /// A header is valid when its field elements are and its sequencer
    /// address is below 2^251.
    pub open spec fn wf(&self) -> bool {
        &&& self.block_hash.wf()
        &&& self.parent_hash.wf()
        &&& self.sequencer_address.wf()
        &&& self.sequencer_address.is_address_spec()
        &&& self.state_root.wf()
    }

    /// The header of the block that `info` describes: its hash and its
    /// parent's hash are the two identifiers, its state root is zero.
    /// Refused when the sequencer address is out of range.
    pub fn from_block_info(block_id: u64, previous_block_id: u64, info: &BlockInfo) -> (r: Result<
        BlockHeader,
        StorageError,
    >)
        ensures
            r.is_ok() <==> info.sequencer_address.is_address_spec(),
            r.is_ok() ==> is_header_of(r.unwrap(), block_id, previous_block_id, *info)
                && r.unwrap().wf(),
            r.is_err() ==> r.unwrap_err() == StorageError::AddressOutOfRange,
    {
        let block_hash = Felt::from_u64(block_id);
        let parent_hash = Felt::from_u64(previous_block_id);
        if !info.sequencer_address.is_address() {
            return Err(StorageError::AddressOutOfRange);
        }
        proof {
            use_type_invariant(&info.sequencer_address);
        }
        Ok(
            BlockHeader {
                block_hash,
                parent_hash,
                block_number: info.block_number,
                timestamp: info.block_timestamp,
                sequencer_address: info.sequencer_address,
                gas_price: info.gas_price,
                state_root: Felt::zero(),
            },
        )
    }

    /// Headers made of the same arguments are the same header.
    pub proof fn law_header_of_unique(
        a: BlockHeader,
        b: BlockHeader,
        block_id: u64,
        previous_block_id: u64,
        info: BlockInfo,
    )
        requires
            is_header_of(a, block_id, previous_block_id, info),
            is_header_of(b, block_id, previous_block_id, info),
        ensures
            a == b,
    {
        a.block_hash.lemma_view_injective(b.block_hash);
        a.parent_hash.lemma_view_injective(b.parent_hash);
        a.state_root.lemma_view_injective(b.state_root);
    }
}

} // verus!

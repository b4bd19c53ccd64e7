//! The ledger's data as the engine sees it: blocks, the operations they
//! record, and the requests and answers of the block query protocol.

use vstd::prelude::*;
use crate::types::CanisterId;

verus! {

/// Position of a block in a ledger's chain.
pub type BlockIndex = u64;

/// A ledger account: 32 bytes, of which the ledger defines the meaning.
#[derive(Clone, Copy, Debug, PartialEq, Eq, Hash)]
pub struct AccountIdentifier {
    pub bytes: [u8; 32],
}

impl AccountIdentifier {
    /// Decides whether two account identifiers are the same value.
    pub fn same(&self, other: &AccountIdentifier) -> (r: bool)
        ensures
            r == (*self == *other),
    {
        let mut i: usize = 0;
        while i < 32
            invariant
                i <= 32,
                forall|j: int| 0 <= j < i ==> self.bytes[j] == other.bytes[j],
            decreases 32 - i,
        {
            if self.bytes[i] != other.bytes[i] {
                return false;
            }
            i += 1;
        }
        assert(self.bytes =~= other.bytes);
        true
    }
}

/// What a transaction did. Amounts are in the ledger's smallest unit.
#[derive(Clone, Copy, Debug, PartialEq, Eq)]
pub enum Operation {
    Mint { to: AccountIdentifier, amount: u64 },
    Burn { from: AccountIdentifier, amount: u64 },
    Transfer { from: AccountIdentifier, to: AccountIdentifier, amount: u64, fee: u64 },
}

#[derive(Clone, Copy, Debug, PartialEq, Eq)]
pub struct Transaction {
    pub memo: u64,
    pub operation: Option<Operation>,
    /// Nanoseconds since the epoch at which the client built the transaction.
    pub created_at_time: u64,
}

/// One confirmed transaction record.
#[derive(Clone, Copy, Debug, PartialEq, Eq)]
pub struct Block {
    pub parent_hash: Option<[u8; 32]>,
    pub transaction: Transaction,
    /// Nanoseconds since the epoch at which the ledger built the block.
    pub timestamp: u64,
}

/// Arguments of a block query: the first index wanted and how many blocks at most.
#[derive(Clone, Copy, Debug, PartialEq, Eq)]
pub struct GetBlocksArgs {
    pub start: BlockIndex,
    pub length: u64,
}

/// Where to ask for a range of blocks that left the ledger's working set.
#[derive(Clone, Debug, PartialEq, Eq)]
pub struct ArchiveCallback {
    pub canister_id: CanisterId,
    pub method: String,
}

/// A range of blocks that an archive shard holds.
#[derive(Clone, Debug, PartialEq, Eq)]
pub struct ArchivedBlocksRange {
    pub start: BlockIndex,
    pub length: u64,
    pub callback: ArchiveCallback,
}

/// The ledger's answer to a block query.
#[derive(Clone, Debug, PartialEq, Eq)]
pub struct QueryBlocksResponse {
    pub chain_length: u64,
    pub blocks: Vec<Block>,
    pub first_block_index: BlockIndex,
    pub archived_blocks: Vec<ArchivedBlocksRange>,
}

/// Why an archive shard refused a block query.
#[derive(Clone, Debug, PartialEq, Eq)]
pub enum GetBlocksError {
    BadFirstBlockIndex { requested_index: BlockIndex, first_valid_index: BlockIndex },
    Other { error_code: u64, error_message: String },
}

/// An archive shard's answer to a block query.
pub type GetBlocksResult = Result<Vec<Block>, GetBlocksError>;

/// The accounts that an operation touches: a transfer its sender and its
/// receiver, in that order; a mint its receiver; a burn its sender.
pub open spec fn touched_accounts(operation: Option<Operation>) -> Seq<AccountIdentifier> {
    match operation {
        Some(Operation::Transfer { from, to, .. }) => seq![from, to],
        Some(Operation::Mint { to, .. }) => seq![to],
        Some(Operation::Burn { from, .. }) => seq![from],
        None => Seq::empty(),
    }
}

} // verus!

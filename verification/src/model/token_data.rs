//! One tracked ledger: its symbol, its address and its sync state.

use vstd::prelude::*;
use crate::block::BlockIndex;
use crate::model::ledger_sync_state::{LedgerSyncState, SyncStateView};
use crate::types::{CanisterId, TimestampMillis};

verus! {

pub struct TokenData {
    token_symbol: String,
    ledger_canister_id: CanisterId,
    ledger_sync_state: LedgerSyncState,
}

pub struct TokenDataView {
    /// The key under which the ledger is tracked.
    pub token_symbol: Seq<char>,
    pub ledger_canister_id: CanisterId,
    pub sync: SyncStateView,
}

/// What the metrics snapshot reports of one ledger.
#[derive(Clone, Debug, PartialEq, Eq)]
pub struct TokenMetrics {
    pub token_symbol: String,
    pub ledger_canister_id: CanisterId,
    pub sync_enabled: bool,
    /// The last block that was synced: the one before the cursor, if any.
    pub synced_up_to: Option<BlockIndex>,
    pub last_sync_started_at: TimestampMillis,
    pub last_successful_sync: TimestampMillis,
    pub last_failed_sync: TimestampMillis,
}

/// The last block index before `cursor`; none before the first block.
pub open spec fn synced_up_to(cursor: BlockIndex) -> Option<BlockIndex> {
    if cursor == 0 {
        None
    } else {
        Some((cursor - 1) as u64)
    }
}

impl TokenDataView {
    /// Whether `metrics` reports this ledger.
    pub open spec fn reported_by(self, metrics: TokenMetrics) -> bool {
        &&& metrics.token_symbol@ == self.token_symbol
        &&& metrics.ledger_canister_id == self.ledger_canister_id
        &&& metrics.sync_enabled == self.sync.enabled
        &&& metrics.synced_up_to == synced_up_to(self.sync.next_block_to_sync)
        &&& metrics.last_sync_started_at == self.sync.last_sync_started_at
        &&& metrics.last_successful_sync == self.sync.last_successful_sync
        &&& metrics.last_failed_sync == self.sync.last_failed_sync
    }
}

impl View for TokenData {
    type V = TokenDataView;

    closed spec fn view(&self) -> TokenDataView {
        TokenDataView {
            token_symbol: self.token_symbol@,
            ledger_canister_id: self.ledger_canister_id,
            sync: self.ledger_sync_state@,
        }
    }
}

impl TokenData {
    pub fn new(
        token_symbol: String,
        ledger_canister_id: CanisterId,
        sync_from_block_index: BlockIndex,
    ) -> (token: TokenData)
        ensures
            token@ == (TokenDataView {
                token_symbol: token_symbol@,
                ledger_canister_id,
                sync: SyncStateView::initial(sync_from_block_index),
            }),
    {
        TokenData {
            token_symbol,
            ledger_canister_id,
            ledger_sync_state: LedgerSyncState::new(sync_from_block_index),
        }
    }

    pub fn token_symbol(&self) -> (symbol: &str)
        ensures
            symbol@ == self@.token_symbol,
    {
        self.token_symbol.as_str()
    }

    /// Whether the ledger is tracked under `symbol`.
    pub fn has_symbol(&self, symbol: &String) -> (same: bool)
        ensures
            same == (self@.token_symbol == symbol@),
    {
        self.token_symbol == *symbol
    }

    pub fn ledger_canister_id(&self) -> (id: CanisterId)
        ensures
            id == self@.ledger_canister_id,
    {
        self.ledger_canister_id
    }

    pub fn ledger_sync_state(&self) -> (state: &LedgerSyncState)
        ensures
            state@ == self@.sync,
    {
        &self.ledger_sync_state
    }

    /// Lends the sync state for a change; symbol and address stay as they are.
    pub fn ledger_sync_state_mut(&mut self) -> (state: &mut LedgerSyncState)
        ensures
            state@ == old(self)@.sync,
            final(self)@ == (TokenDataView { sync: final(state)@, ..old(self)@ }),
    {
        &mut self.ledger_sync_state
    }

    pub fn metrics(&self) -> (metrics: TokenMetrics)
        ensures
            self@.reported_by(metrics),
    {
        TokenMetrics {
            token_symbol: self.token_symbol.clone(),
            ledger_canister_id: self.ledger_canister_id,
            sync_enabled: self.ledger_sync_state.enabled(),
            synced_up_to: self.ledger_sync_state.next_block_to_sync().checked_sub(1),
            last_sync_started_at: self.ledger_sync_state.last_sync_started_at(),
            last_successful_sync: self.ledger_sync_state.last_successful_sync(),
            last_failed_sync: self.ledger_sync_state.last_failed_sync(),
        }
    }
}

} // verus!

//! Adding a ledger to those that the engine tracks.

use vstd::prelude::*;
use crate::block::{BlockIndex, GetBlocksArgs};
use crate::model::ledger_sync_state::SyncStateView;
use crate::model::token_data::{TokenData, TokenDataView};
use crate::types::CanisterId;
use crate::{has_ledger, has_symbol, token_views, DataView, State};

verus! {

#[derive(Clone, Copy, Debug, PartialEq, Eq)]
pub struct Args {
    pub ledger_canister_id: CanisterId,
    pub enable_sync: bool,
    pub sync_from_block_index: Option<BlockIndex>,
}

#[derive(Clone, Debug, PartialEq, Eq)]
pub enum Response {
    Success,
    AlreadyAdded,
    LedgerError(String),
}

/// Where the first sync of a new ledger starts.
#[derive(Clone, Copy, Debug, PartialEq, Eq)]
pub enum StartIndex {
    /// At the index that the request names.
    Given(BlockIndex),
    /// At the ledger's current chain length, which this query probes.
    ChainLength(GetBlocksArgs),
}

/// Whether a ledger at this address is tracked already.
pub fn is_ledger_added(state: &State, ledger_canister_id: &CanisterId) -> (added: bool)
    ensures
        added == has_ledger(state.data@.tokens, *ledger_canister_id),
{
    let mut i: usize = 0;
    while i < state.data.tokens.len()
        invariant
            i <= state.data.tokens.len(),
            forall|j: int|
                0 <= j < i ==> (#[trigger] state.data@.tokens[j]).ledger_canister_id
                    != *ledger_canister_id,
        decreases state.data.tokens.len() - i,
    {
        if state.data.tokens[i].ledger_canister_id().same(ledger_canister_id) {
            assert(state.data@.tokens[i as int].ledger_canister_id == *ledger_canister_id);
            return true;
        }
        i += 1;
    }
    false
}

/// Decides where the first sync starts: at the index that the request names,
/// or, if it names none, at the chain length that a query for no blocks from
/// index 0 reports.
pub fn sync_from_block_index(block_index_override: Option<BlockIndex>) -> (start: StartIndex)
    ensures
        start == match block_index_override {
            Some(block_index) => StartIndex::Given(block_index),
            None => StartIndex::ChainLength(GetBlocksArgs { start: 0, length: 0 }),
        },
{
    match block_index_override {
        Some(block_index) => StartIndex::Given(block_index),
        None => StartIndex::ChainLength(GetBlocksArgs { start: 0, length: 0 }),
    }
}

/// How a request to add a ledger goes on.
#[derive(Clone, Debug, PartialEq, Eq)]
pub enum AddTokenStep {
    /// The request is answered without asking the ledger anything.
    Done(Response),
    /// The ledger is to be asked for its symbol and, unless the start index
    /// is given, for its chain length.
    QueryLedger(StartIndex),
}

/// Decides how a request to add a ledger goes on: a ledger whose address is
/// tracked already is refused at once; any other is asked about itself.
pub fn add_token_step(args: &Args, state: &State) -> (step: AddTokenStep)
    ensures
        step == if has_ledger(state.data@.tokens, args.ledger_canister_id) {
            AddTokenStep::Done(Response::AlreadyAdded)
        } else {
            AddTokenStep::QueryLedger(
                match args.sync_from_block_index {
                    Some(block_index) => StartIndex::Given(block_index),
                    None => StartIndex::ChainLength(GetBlocksArgs { start: 0, length: 0 }),
                },
            )
        },
{
    if is_ledger_added(state, &args.ledger_canister_id) {
        AddTokenStep::Done(Response::AlreadyAdded)
    } else {
        AddTokenStep::QueryLedger(sync_from_block_index(args.sync_from_block_index))
    }
}

/// The ledger entry that a successful request creates: idle at version 0,
/// with the cursor at the start index, syncing only if the request enables it.
pub open spec fn new_token(
    token_symbol: Seq<char>,
    ledger_canister_id: CanisterId,
    sync_from_block_index: BlockIndex,
    enable_sync: bool,
) -> TokenDataView {
    TokenDataView {
        token_symbol,
        ledger_canister_id,
        sync: SyncStateView {
            enabled: enable_sync,
            ..SyncStateView::initial(sync_from_block_index)
        },
    }
}

/// Tracks a ledger under its symbol, unless that symbol is taken.
pub fn add_token_impl(
    token_symbol: String,
    ledger_canister_id: CanisterId,
    sync_from_block_index: BlockIndex,
    enable_sync: bool,
    state: &mut State,
) -> (response: Response)
    requires
        old(state).data.wf(),
    ensures
        final(state).data.wf(),
        has_symbol(old(state).data@.tokens, token_symbol@) ==> response == Response::AlreadyAdded
            && final(state).data@ == old(state).data@,
        !has_symbol(old(state).data@.tokens, token_symbol@) ==> response == Response::Success
            && final(state).data@ == (DataView {
            tokens: old(state).data@.tokens.push(
                new_token(token_symbol@, ledger_canister_id, sync_from_block_index, enable_sync),
            ),
            ..old(state).data@
        }),
{
    match state.data.token_position(token_symbol.as_str()) {
        Some(_) => Response::AlreadyAdded,
        None => {
            let mut token_data = TokenData::new(
                token_symbol,
                ledger_canister_id,
                sync_from_block_index,
            );
            if enable_sync {
                token_data.ledger_sync_state_mut().set_enabled(true);
            }
            let ghost before = state.data.tokens@;
            state.data.tokens.push(token_data);
            proof {
                assert(token_views(state.data.tokens@) =~= token_views(before).push(token_data@));
                assert forall|i: int, j: int|
                    0 <= i < j < state.data@.tokens.len() implies (
                #[trigger] state.data@.tokens[i]).token_symbol != (
                #[trigger] state.data@.tokens[j]).token_symbol by {
                    if j < before.len() {
                        assert(token_views(before)[i].token_symbol != token_views(
                            before,
                        )[j].token_symbol);
                    } else {
                        assert(token_views(before)[i].token_symbol != token_symbol@);
                    }
                }
            }
            Response::Success
        },
    }
}

/// Takes in what the ledger answered about itself. If both its symbol and
/// the start index are known, the ledger is added; if either query failed,
/// the failure is reported, that of the symbol first, and nothing changes.
pub fn add_token_result(
    args: &Args,
    token_symbol: Result<String, String>,
    block_index: Result<BlockIndex, String>,
    state: &mut State,
) -> (response: Response)
    requires
        old(state).data.wf(),
    ensures
        final(state).data.wf(),
        match (token_symbol, block_index) {
            (Ok(symbol), Ok(index)) => {
                &&& has_symbol(old(state).data@.tokens, symbol@) ==> response
                    == Response::AlreadyAdded && final(state).data@ == old(state).data@
                &&& !has_symbol(old(state).data@.tokens, symbol@) ==> response == Response::Success
                    && final(state).data@ == (DataView {
                    tokens: old(state).data@.tokens.push(
                        new_token(symbol@, args.ledger_canister_id, index, args.enable_sync),
                    ),
                    ..old(state).data@
                })
            },
            (Err(error), _) => response == Response::LedgerError(error) && final(state).data@
                == old(state).data@,
            (Ok(_), Err(error)) => response == Response::LedgerError(error) && final(state).data@
                == old(state).data@,
        },
{
    match token_symbol {
        Ok(symbol) => match block_index {
            Ok(index) => add_token_impl(
                symbol,
                args.ledger_canister_id,
                index,
                args.enable_sync,
                state,
            ),
            Err(error) => Response::LedgerError(error),
        },
        Err(error) => Response::LedgerError(error),
    }
}

/// Once a ledger is added, its address and its symbol are taken: a second
/// request for the same address is refused before the ledger is asked, and
/// the symbol cannot be given to another ledger.
pub proof fn lemma_added_ledger_is_tracked(
    tokens: Seq<TokenDataView>,
    token_symbol: Seq<char>,
    ledger_canister_id: CanisterId,
    sync_from_block_index: BlockIndex,
    enable_sync: bool,
)
    ensures
        has_ledger(
            tokens.push(
                new_token(token_symbol, ledger_canister_id, sync_from_block_index, enable_sync),
            ),
            ledger_canister_id,
        ),
        has_symbol(
            tokens.push(
                new_token(token_symbol, ledger_canister_id, sync_from_block_index, enable_sync),
            ),
            token_symbol,
        ),
{
    let added = tokens.push(
        new_token(token_symbol, ledger_canister_id, sync_from_block_index, enable_sync),
    );
    assert(added[tokens.len() as int].ledger_canister_id == ledger_canister_id);
    assert(added[tokens.len() as int].token_symbol == token_symbol);
}

} // verus!

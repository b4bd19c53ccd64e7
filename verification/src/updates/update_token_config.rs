//! Reconfiguring the sync of a tracked ledger.

use vstd::prelude::*;
use crate::block::BlockIndex;
use crate::lifecycle::sync_ledger_transactions::{claim_of, tokens_after_sync, tokens_after_tick};
use crate::model::token_data::TokenDataView;
use crate::types::TimestampMillis;
use crate::{has_symbol, symbols_distinct, DataView, State};

verus! {

#[derive(Clone, Debug, PartialEq, Eq)]
pub struct Args {
    pub token_symbol: String,
    pub sync_enabled: Option<bool>,
    pub sync_from_block_index: Option<BlockIndex>,
}

#[derive(Clone, Copy, Debug, PartialEq, Eq)]
pub enum Response {
    Success,
    TokenNotFound,
}

/// The ledgers after the one tracked under `token_symbol` was reconfigured;
/// the other ledgers are as they were.
pub open spec fn tokens_after_update(
    tokens: Seq<TokenDataView>,
    token_symbol: Seq<char>,
    sync_enabled: Option<bool>,
    sync_from_block_index: Option<BlockIndex>,
) -> Seq<TokenDataView> {
    tokens.map_values(
        |t: TokenDataView|
            if t.token_symbol == token_symbol {
                TokenDataView { sync: t.sync.reconfigure(sync_enabled, sync_from_block_index), ..t }
            } else {
                t
            },
    )
}

/// A cursor override on the ledger tracked under `token_symbol` can be counted.
pub open spec fn version_has_room(tokens: Seq<TokenDataView>, token_symbol: Seq<char>) -> bool {
    forall|i: int|
        0 <= i < tokens.len() && (#[trigger] tokens[i]).token_symbol == token_symbol
            ==> tokens[i].sync.version < u32::MAX
}

/// Applies an administrative change to a ledger's sync: switches it on or
/// off where the request says so, and moves the cursor where the request
/// names one. Moving the cursor starts a new version, so that a sync claimed
/// before the change cannot write the cursor any more.
pub fn update_token_config_impl(args: Args, state: &mut State) -> (response: Response)
    requires
        old(state).data.wf(),
        args.sync_from_block_index is Some ==> version_has_room(
            old(state).data@.tokens,
            args.token_symbol@,
        ),
    ensures
        final(state).data.wf(),
        response == if has_symbol(old(state).data@.tokens, args.token_symbol@) {
            Response::Success
        } else {
            Response::TokenNotFound
        },
        final(state).data@ == (DataView {
            tokens: tokens_after_update(
                old(state).data@.tokens,
                args.token_symbol@,
                args.sync_enabled,
                args.sync_from_block_index,
            ),
            ..old(state).data@
        }),
{
    let ghost before = state.data@.tokens;
    let ghost expected = tokens_after_update(
        before,
        args.token_symbol@,
        args.sync_enabled,
        args.sync_from_block_index,
    );
    let response = match state.data.token_position(args.token_symbol.as_str()) {
        Some(i) => {
            let ghost tokens_then = state.data.tokens@;
            let ledger_sync_state = state.data.tokens[i].ledger_sync_state_mut();
            if let Some(enabled) = args.sync_enabled {
                ledger_sync_state.set_enabled(enabled);
            }
            if let Some(block_index) = args.sync_from_block_index {
                ledger_sync_state.set_next_block_to_sync(block_index, None);
                ledger_sync_state.incr_version();
            }
            proof {
                assert(state.data.tokens@ =~= tokens_then.update(i as int, state.data.tokens@[i as int]));
                assert forall|j: int| 0 <= j < before.len() implies (
                #[trigger] state.data@.tokens[j]) == expected[j] by {
                    if j != i {
                        assert(state.data@.tokens[j] == before[j]);
                        if j < i {
                            assert(before[j].token_symbol != before[i as int].token_symbol);
                        } else {
                            assert(before[i as int].token_symbol != before[j].token_symbol);
                        }
                    }
                }
                assert(state.data@.tokens =~= expected);
            }
            Response::Success
        },
        None => {
            proof {
                assert forall|j: int| 0 <= j < before.len() implies before[j] == (
                #[trigger] expected[j]) by {
                    assert(before[j].token_symbol != args.token_symbol@);
                }
                assert(state.data@.tokens =~= expected);
            }
            Response::TokenNotFound
        },
    };
    proof {
        assert forall|a: int, b: int| 0 <= a < b < expected.len() implies (
        #[trigger] expected[a]).token_symbol != (#[trigger] expected[b]).token_symbol by {
            assert(before[a].token_symbol != before[b].token_symbol);
        }
    }
    response
}

/// A cursor override that is applied while a sync of the same ledger is in
/// flight wins. The tick claimed the ledger under its version `v`; the
/// override moves the cursor and makes the version `v + 1`; when the sync
/// ends and asks for its own cursor under `v`, the ledger keeps the cursor of
/// the override, and the claim is released.
pub proof fn lemma_override_wins_over_sync_in_flight(
    tokens: Seq<TokenDataView>,
    i: int,
    now: TimestampMillis,
    sync_enabled: Option<bool>,
    cursor_override: BlockIndex,
    synced_cursor: Option<BlockIndex>,
    success: bool,
    done: TimestampMillis,
)
    requires
        symbols_distinct(tokens),
        0 <= i < tokens.len(),
        tokens[i].sync.claimable(),
        tokens[i].sync.version < u32::MAX,
    ensures
        ({
            let symbol = tokens[i].token_symbol;
            let claim = claim_of(tokens[i]);
            let claimed = tokens_after_tick(tokens, now);
            let overridden = tokens_after_update(
                claimed,
                symbol,
                sync_enabled,
                Some(cursor_override),
            );
            let finished = tokens_after_sync(
                overridden,
                symbol,
                synced_cursor,
                success,
                claim.version,
                done,
            );
            &&& claimed[i].sync.in_progress
            &&& overridden[i].sync.version == claim.version + 1
            &&& overridden[i].sync.next_block_to_sync == cursor_override
            &&& finished[i].sync.next_block_to_sync == cursor_override
            &&& finished[i].sync.version == claim.version + 1
            &&& !finished[i].sync.in_progress
        }),
{
}

} // verus!

//! The sync half of a scheduler tick: claim the ledgers that are due, and,
//! once the blocks of a claimed ledger have been fetched, turn them into
//! notifications and move the ledger's cursor.

use vstd::prelude::*;
use crate::block::{
    touched_accounts, AccountIdentifier, Block, BlockIndex, GetBlocksArgs, Operation,
};
use crate::lifecycle::block_source::TransportError;
use crate::model::ledger_sync_state::{TryStartSyncResult, Version};
use crate::model::notifications::{
    Notification, NotificationView, NotificationsView, NotifyTransactionArgs,
    NotifyTransactionArgsView,
};
use crate::model::subscriptions::{
    resolve, subscribers_of, subscriptions_valid, Subscriptions, SubscriptionsView,
};
use crate::model::token_data::TokenDataView;
use crate::types::{CanisterId, TimestampMillis};
use crate::unique::{
    extend_unique, extend_unique_principals, lemma_extend_unique_contains,
    lemma_extend_unique_no_duplicates,
};
use crate::{symbols_distinct, token_views, Data, DataView, State};

verus! {

/// The most blocks that one sync attempt asks a ledger for.
pub const MAX_BLOCKS_PER_SYNC: u64 = 1000;

/// A claimed sync attempt: which ledger, from which block, and under which
/// version of the ledger's configuration the claim was made.
#[derive(Clone, Debug, PartialEq, Eq)]
pub struct TokenToSync {
    pub token_symbol: String,
    pub ledger_canister_id: CanisterId,
    pub from_block: BlockIndex,
    pub version: Version,
}

pub struct TokenToSyncView {
    pub token_symbol: Seq<char>,
    pub ledger_canister_id: CanisterId,
    pub from_block: BlockIndex,
    pub version: Version,
}

impl View for TokenToSync {
    type V = TokenToSyncView;

    open spec fn view(&self) -> TokenToSyncView {
        TokenToSyncView {
            token_symbol: self.token_symbol@,
            ledger_canister_id: self.ledger_canister_id,
            from_block: self.from_block,
            version: self.version,
        }
    }
}

/// The views of a sequence of claims, in the same order.
pub open spec fn claim_views(claims: Seq<TokenToSync>) -> Seq<TokenToSyncView> {
    claims.map_values(|c: TokenToSync| c@)
}

/// The claim that a tick takes on a ledger that is due: it starts at the
/// ledger's cursor and remembers the ledger's version.
pub open spec fn claim_of(token: TokenDataView) -> TokenToSyncView {
    TokenToSyncView {
        token_symbol: token.token_symbol,
        ledger_canister_id: token.ledger_canister_id,
        from_block: token.sync.next_block_to_sync,
        version: token.sync.version,
    }
}

/// The claims of a tick: one for each ledger that is enabled and has no sync
/// in flight, in the order of the ledgers.
pub open spec fn claims_of_tick(tokens: Seq<TokenDataView>) -> Seq<TokenToSyncView> {
    tokens.filter(|t: TokenDataView| t.sync.claimable()).map_values(
        |t: TokenDataView| claim_of(t),
    )
}

/// The ledgers after a tick at `now`: each ledger that was due has a sync in
/// flight that started at `now`; the others are as they were.
pub open spec fn tokens_after_tick(tokens: Seq<TokenDataView>, now: TimestampMillis) -> Seq<
    TokenDataView,
> {
    tokens.map_values(|t: TokenDataView| TokenDataView { sync: t.sync.claim(now), ..t })
}

proof fn lemma_tick_step(tokens: Seq<TokenDataView>, i: int)
    requires
        0 <= i < tokens.len(),
    ensures
        claims_of_tick(tokens.take(i + 1)) == if tokens[i].sync.claimable() {
            claims_of_tick(tokens.take(i)).push(claim_of(tokens[i]))
        } else {
            claims_of_tick(tokens.take(i))
        },
{
    let due = |t: TokenDataView| t.sync.claimable();
    let to_claim = |t: TokenDataView| claim_of(t);
    assert(tokens.take(i + 1).drop_last() =~= tokens.take(i));
    reveal(Seq::filter);
    assert(tokens.take(i + 1).filter(due) == if due(tokens[i]) {
        tokens.take(i).filter(due).push(tokens[i])
    } else {
        tokens.take(i).filter(due)
    });
    if due(tokens[i]) {
        assert(tokens.take(i).filter(due).push(tokens[i]).map_values(to_claim)
            =~= tokens.take(i).filter(due).map_values(to_claim).push(claim_of(tokens[i])));
    }
}

/// Claims a sync attempt on every ledger that is due at `now`.
pub fn claim_tokens_to_sync(data: &mut Data, now: TimestampMillis) -> (claims: Vec<TokenToSync>)
    requires
        old(data).wf(),
    ensures
        final(data).wf(),
        final(data)@ == (DataView {
            tokens: tokens_after_tick(old(data)@.tokens, now),
            ..old(data)@
        }),
        claim_views(claims@) == claims_of_tick(old(data)@.tokens),
{
    let mut claims: Vec<TokenToSync> = Vec::new();
    let ghost before = data@.tokens;
    let mut i: usize = 0;
    proof {
        assert(before.take(0) =~= Seq::<TokenDataView>::empty());
        assert(claim_views(claims@) =~= claims_of_tick(before.take(0)));
    }
    while i < data.tokens.len()
        invariant
            i <= data.tokens.len(),
            before == old(data)@.tokens,
            data.tokens@.len() == before.len(),
            data@ == (DataView { tokens: data@.tokens, ..old(data)@ }),
            data.admins == old(data).admins,
            data.subscriptions == old(data).subscriptions,
            forall|j: int|
                0 <= j < i ==> (#[trigger] data@.tokens[j]) == (TokenDataView {
                    sync: before[j].sync.claim(now),
                    ..before[j]
                }),
            forall|j: int| i <= j < before.len() ==> (#[trigger] data@.tokens[j]) == before[j],
            claim_views(claims@) == claims_of_tick(before.take(i as int)),
        decreases data.tokens.len() - i,
    {
        let ghost tokens_then = data.tokens@;
        let ghost claims_then = claims@;
        proof {
            lemma_tick_step(before, i as int);
            assert(data@.tokens[i as int] == before[i as int]);
        }
        let result = data.tokens[i].ledger_sync_state_mut().try_start(now);
        proof {
            assert(data.tokens@ =~= tokens_then.update(i as int, data.tokens@[i as int]));
            assert forall|j: int| 0 <= j < before.len() && j != i implies (
            #[trigger] data@.tokens[j]) == token_views(tokens_then)[j] by {}
        }
        if let TryStartSyncResult::Success(next_block_to_sync, version) = result {
            let token = &data.tokens[i];
            let claim = TokenToSync {
                token_symbol: token.token_symbol().to_string(),
                ledger_canister_id: token.ledger_canister_id(),
                from_block: next_block_to_sync,
                version,
            };
            claims.push(claim);
            proof {
                assert(claim@ == claim_of(before[i as int]));
                assert(claim_views(claims@) =~= claim_views(claims_then).push(claim@));
            }
        }
        i += 1;
    }
    proof {
        assert(before.take(before.len() as int) =~= before);
        assert(data@.tokens =~= tokens_after_tick(before, now));
        assert forall|a: int, b: int| 0 <= a < b < data@.tokens.len() implies (
        #[trigger] data@.tokens[a]).token_symbol != (#[trigger] data@.tokens[b]).token_symbol by {
            assert(before[a].token_symbol != before[b].token_symbol);
        }
    }
    claims
}

/// The sync half of a tick: claims every ledger that is due, at the time the
/// environment reports.
pub fn tokens_to_sync(state: &mut State) -> (claims: Vec<TokenToSync>)
    requires
        old(state).data.wf(),
    ensures
        final(state).data.wf(),
        claim_views(claims@) == claims_of_tick(old(state).data@.tokens),
        final(state).data@ == (DataView { tokens: final(state).data@.tokens, ..old(state).data@ }),
        exists|now: TimestampMillis|
            final(state).data@.tokens == #[trigger] tokens_after_tick(
                old(state).data@.tokens,
                now,
            ),
{
    let now = state.env.now();
    claim_tokens_to_sync(&mut state.data, now)
}

/// The accounts that a block's operation touches.
pub fn extract_account_identifiers(operation: &Option<Operation>) -> (accounts: Vec<
    AccountIdentifier,
>)
    ensures
        accounts@ == touched_accounts(*operation),
{
    let mut accounts: Vec<AccountIdentifier> = Vec::new();
    match operation {
        Some(Operation::Transfer { from, to, .. }) => {
            accounts.push(*from);
            accounts.push(*to);
        },
        Some(Operation::Mint { to, .. }) => {
            accounts.push(*to);
        },
        Some(Operation::Burn { from, .. }) => {
            accounts.push(*from);
        },
        None => {},
    }
    assert(accounts@ =~= touched_accounts(*operation));
    accounts
}

/// The services to tell about a block that touches `accounts`: the
/// subscribers of the first account in subscription order, then those of the
/// next account that were not named yet, and so on. Each service occurs once.
pub open spec fn notify_targets(accounts: Seq<AccountIdentifier>, subscriptions: SubscriptionsView) -> Seq<
    CanisterId,
>
    decreases accounts.len(),
{
    if accounts.len() == 0 {
        Seq::empty()
    } else {
        extend_unique(
            notify_targets(accounts.drop_last(), subscriptions),
            subscribers_of(subscriptions, accounts.last()),
        )
    }
}

/// The services subscribed to any of `accounts`, each once.
pub fn extract_canisters_to_notify(
    account_identifiers: &[AccountIdentifier],
    subscriptions: &Subscriptions,
) -> (canister_ids: Vec<CanisterId>)
    requires
        subscriptions.wf(),
    ensures
        canister_ids@ == notify_targets(account_identifiers@, subscriptions@),
{
    let mut canister_ids: Vec<CanisterId> = Vec::new();
    let mut i: usize = 0;
    proof {
        assert(account_identifiers@.take(0) =~= Seq::<AccountIdentifier>::empty());
    }
    while i < account_identifiers.len()
        invariant
            i <= account_identifiers.len(),
            subscriptions.wf(),
            canister_ids@ == notify_targets(account_identifiers@.take(i as int), subscriptions@),
        decreases account_identifiers.len() - i,
    {
        proof {
            assert(account_identifiers@.take(i + 1).drop_last() =~= account_identifiers@.take(
                i as int,
            ));
        }
        match subscriptions.get(&account_identifiers[i]) {
            Some(subscribed) => {
                extend_unique_principals(&mut canister_ids, subscribed);
            },
            None => {},
        }
        i += 1;
    }
    proof {
        assert(account_identifiers@.take(account_identifiers.len() as int)
            =~= account_identifiers@);
    }
    canister_ids
}

/// The notifications that one block gives rise to: one for each service to
/// tell, all with the same payload.
pub open spec fn block_notifications(
    token_symbol: Seq<char>,
    ledger_canister_id: CanisterId,
    block_index: BlockIndex,
    block: Block,
    subscriptions: SubscriptionsView,
) -> Seq<NotificationView> {
    let targets = notify_targets(touched_accounts(block.transaction.operation), subscriptions);
    Seq::new(
        targets.len(),
        |i: int|
            NotificationView {
                canister_id: targets[i],
                args: NotifyTransactionArgsView {
                    token_symbol,
                    ledger_canister_id,
                    block_index,
                    block,
                },
            },
    )
}

/// The notifications that a run of consecutive blocks gives rise to, the
/// first of which stands at `from_block_index`: those of the first block,
/// then those of the second, and so on.
pub open spec fn blocks_notifications(
    token_symbol: Seq<char>,
    ledger_canister_id: CanisterId,
    blocks: Seq<Block>,
    from_block_index: BlockIndex,
    subscriptions: SubscriptionsView,
) -> Seq<NotificationView>
    decreases blocks.len(),
{
    if blocks.len() == 0 {
        Seq::empty()
    } else {
        blocks_notifications(
            token_symbol,
            ledger_canister_id,
            blocks.drop_last(),
            from_block_index,
            subscriptions,
        ) + block_notifications(
            token_symbol,
            ledger_canister_id,
            (from_block_index + blocks.len() - 1) as u64,
            blocks.last(),
            subscriptions,
        )
    }
}

/// Queues the notifications for a run of fetched blocks, block by block.
pub fn enqueue_notifications(
    token_symbol: &str,
    ledger_canister_id: CanisterId,
    blocks: Vec<Block>,
    from_block_index: BlockIndex,
    state: &mut State,
)
    requires
        old(state).data.wf(),
        from_block_index + blocks@.len() <= u64::MAX,
    ensures
        final(state).data.wf(),
        final(state).data@ == (DataView {
            notifications: NotificationsView {
                queue: old(state).data@.notifications.queue + blocks_notifications(
                    token_symbol@,
                    ledger_canister_id,
                    blocks@,
                    from_block_index,
                    old(state).data@.subscriptions,
                ),
                ..old(state).data@.notifications
            },
            ..old(state).data@
        }),
{
    let ghost queue_before = state.data@.notifications.queue;
    let ghost subscriptions = state.data@.subscriptions;
    let mut i: usize = 0;
    proof {
        assert(blocks@.take(0) =~= Seq::<Block>::empty());
        assert(queue_before + Seq::<NotificationView>::empty() =~= queue_before);
    }
    while i < blocks.len()
        invariant
            i <= blocks.len(),
            from_block_index + blocks@.len() <= u64::MAX,
            state.data.wf(),
            queue_before == old(state).data@.notifications.queue,
            subscriptions == old(state).data@.subscriptions,
            state.data@ == (DataView {
                notifications: NotificationsView {
                    queue: queue_before + blocks_notifications(
                        token_symbol@,
                        ledger_canister_id,
                        blocks@.take(i as int),
                        from_block_index,
                        subscriptions,
                    ),
                    ..old(state).data@.notifications
                },
                ..old(state).data@
            }),
        decreases blocks.len() - i,
    {
        let block = blocks[i];
        let block_index = (i as u64) + from_block_index;
        let account_identifiers = extract_account_identifiers(&block.transaction.operation);
        let canisters_to_notify = extract_canisters_to_notify(
            account_identifiers.as_slice(),
            &state.data.subscriptions,
        );
        let ghost queue_then = state.data@.notifications.queue;
        let ghost expected = block_notifications(
            token_symbol@,
            ledger_canister_id,
            block_index,
            block,
            subscriptions,
        );
        let mut k: usize = 0;
        proof {
            assert(blocks@.take(i + 1).drop_last() =~= blocks@.take(i as int));
            assert(queue_then + expected.take(0) =~= queue_then);
        }
        while k < canisters_to_notify.len()
            invariant
                k <= canisters_to_notify.len(),
                state.data.wf(),
                canisters_to_notify@.len() == expected.len(),
                forall|j: int|
                    0 <= j < expected.len() ==> (#[trigger] expected[j]) == (NotificationView {
                        canister_id: canisters_to_notify@[j],
                        args: NotifyTransactionArgsView {
                            token_symbol: token_symbol@,
                            ledger_canister_id,
                            block_index,
                            block,
                        },
                    }),
                state.data@ == (DataView {
                    notifications: NotificationsView {
                        queue: queue_then + expected.take(k as int),
                        ..old(state).data@.notifications
                    },
                    ..old(state).data@
                }),
            decreases canisters_to_notify.len() - k,
        {
            let notification = Notification {
                canister_id: canisters_to_notify[k],
                args: NotifyTransactionArgs {
                    token_symbol: token_symbol.to_string(),
                    ledger_canister_id,
                    block_index,
                    block,
                },
            };
            state.data.notifications.enqueue(notification);
            proof {
                assert(notification@ == expected[k as int]);
                assert((queue_then + expected.take(k as int)).push(expected[k as int]) =~= queue_then
                    + expected.take(k + 1));
            }
            k += 1;
        }
        proof {
            assert(expected.take(expected.len() as int) =~= expected);
            assert(queue_before + blocks_notifications(
                token_symbol@,
                ledger_canister_id,
                blocks@.take(i as int),
                from_block_index,
                subscriptions,
            ) + expected =~= queue_before + (blocks_notifications(
                token_symbol@,
                ledger_canister_id,
                blocks@.take(i as int),
                from_block_index,
                subscriptions,
            ) + expected));
        }
        i += 1;
    }
    proof {
        assert(blocks@.take(blocks.len() as int) =~= blocks@);
    }
}

/// One ledger after its sync attempt ended: the cursor write, if there is
/// one, is guarded by the version of the claim; then the claim is released
/// and the outcome is dated.
pub open spec fn token_after_sync(
    token: TokenDataView,
    new_cursor: Option<BlockIndex>,
    success: bool,
    version: Version,
    now: TimestampMillis,
) -> TokenDataView {
    let advanced = match new_cursor {
        Some(block_index) => token.sync.advance_cursor(block_index, Some(version)),
        None => token.sync,
    };
    TokenDataView { sync: advanced.complete(success, now), ..token }
}

/// The ledgers after the sync attempt on the ledger tracked under
/// `token_symbol` ended; the other ledgers are as they were.
pub open spec fn tokens_after_sync(
    tokens: Seq<TokenDataView>,
    token_symbol: Seq<char>,
    new_cursor: Option<BlockIndex>,
    success: bool,
    version: Version,
    now: TimestampMillis,
) -> Seq<TokenDataView> {
    tokens.map_values(
        |t: TokenDataView|
            if t.token_symbol == token_symbol {
                token_after_sync(t, new_cursor, success, version, now)
            } else {
                t
            },
    )
}

/// Ends the sync attempt on a ledger at the clock reading `now`.
pub fn complete_sync(
    data: &mut Data,
    token_symbol: &str,
    new_cursor: Option<BlockIndex>,
    success: bool,
    version: Version,
    now: TimestampMillis,
)
    requires
        old(data).wf(),
    ensures
        final(data).wf(),
        final(data)@ == (DataView {
            tokens: tokens_after_sync(
                old(data)@.tokens,
                token_symbol@,
                new_cursor,
                success,
                version,
                now,
            ),
            ..old(data)@
        }),
{
    let ghost before = data@.tokens;
    let ghost expected = tokens_after_sync(before, token_symbol@, new_cursor, success, version, now);
    match data.token_position(token_symbol) {
        Some(i) => {
            let ghost tokens_then = data.tokens@;
            let ledger_sync_state = data.tokens[i].ledger_sync_state_mut();
            if let Some(block_index) = new_cursor {
                ledger_sync_state.set_next_block_to_sync(block_index, Some(version));
            }
            ledger_sync_state.mark_sync_complete(success, now);
            proof {
                assert(data.tokens@ =~= tokens_then.update(i as int, data.tokens@[i as int]));
                assert forall|j: int| 0 <= j < before.len() implies (#[trigger] data@.tokens[j])
                    == expected[j] by {
                    if j != i {
                        assert(data@.tokens[j] == before[j]);
                        if j < i {
                            assert(before[j].token_symbol != before[i as int].token_symbol);
                        } else {
                            assert(before[i as int].token_symbol != before[j].token_symbol);
                        }
                    }
                }
                assert(data@.tokens =~= expected);
            }
        },
        None => {
            proof {
                assert forall|j: int| 0 <= j < before.len() implies before[j] == (
                #[trigger] expected[j]) by {
                    assert(before[j].token_symbol != token_symbol@);
                }
                assert(data@.tokens =~= expected);
            }
        },
    }
    proof {
        assert forall|a: int, b: int| 0 <= a < b < expected.len() implies (
        #[trigger] expected[a]).token_symbol != (#[trigger] expected[b]).token_symbol by {
            assert(before[a].token_symbol != before[b].token_symbol);
        }
    }
}

/// Ends the sync attempt on a ledger, dated by the environment's clock.
pub fn mark_sync_complete(
    token_symbol: &str,
    new_block_index: Option<BlockIndex>,
    success: bool,
    version: Version,
    state: &mut State,
)
    requires
        old(state).data.wf(),
    ensures
        final(state).data.wf(),
        final(state).data@ == (DataView { tokens: final(state).data@.tokens, ..old(state).data@ }),
        exists|now: TimestampMillis|
            final(state).data@.tokens == #[trigger] tokens_after_sync(
                old(state).data@.tokens,
                token_symbol@,
                new_block_index,
                success,
                version,
                now,
            ),
{
    let now = state.env.now();
    complete_sync(&mut state.data, token_symbol, new_block_index, success, version, now);
}

/// The cursor that a sync attempt asks for once its blocks are processed:
/// the index behind the last fetched block, or none if nothing was fetched.
pub open spec fn cursor_after(from_block: BlockIndex, fetched: Option<Seq<Block>>) -> Option<
    BlockIndex,
> {
    match fetched {
        Some(blocks) => if blocks.len() > 0 {
            Some((from_block + blocks.len()) as u64)
        } else {
            None
        },
        None => None,
    }
}

/// The queue after a sync attempt: the notifications of the fetched blocks
/// stand behind those that waited already.
pub open spec fn queue_after(
    queue: Seq<NotificationView>,
    token: TokenToSyncView,
    fetched: Option<Seq<Block>>,
    subscriptions: SubscriptionsView,
) -> Seq<NotificationView> {
    match fetched {
        Some(blocks) => queue + blocks_notifications(
            token.token_symbol,
            token.ledger_canister_id,
            blocks,
            token.from_block,
            subscriptions,
        ),
        None => queue,
    }
}

/// What a fetch brought: the blocks, or nothing if it failed.
pub open spec fn fetched_blocks(fetched: Result<Vec<Block>, TransportError>) -> Option<Seq<Block>> {
    match fetched {
        Ok(blocks) => Some(blocks@),
        Err(_) => None,
    }
}

/// Takes in what the fetch for a claimed sync attempt brought. The blocks'
/// notifications are queued, the cursor moves behind the last block unless an
/// override has replaced the version of the claim, and the claim is released:
/// all at once. A failed fetch only releases the claim, as a failure, and the
/// next tick starts again from the same cursor.
pub fn finish_sync_token(
    token_to_sync: &TokenToSync,
    fetched: Result<Vec<Block>, TransportError>,
    state: &mut State,
)
    requires
        old(state).data.wf(),
        fetched matches Ok(blocks) ==> token_to_sync.from_block + blocks@.len() <= u64::MAX,
    ensures
        final(state).data.wf(),
        final(state).data@ == (DataView {
            tokens: final(state).data@.tokens,
            notifications: NotificationsView {
                queue: queue_after(
                    old(state).data@.notifications.queue,
                    token_to_sync@,
                    fetched_blocks(fetched),
                    old(state).data@.subscriptions,
                ),
                ..old(state).data@.notifications
            },
            ..old(state).data@
        }),
        exists|now: TimestampMillis|
            final(state).data@.tokens == #[trigger] tokens_after_sync(
                old(state).data@.tokens,
                token_to_sync@.token_symbol,
                cursor_after(token_to_sync.from_block, fetched_blocks(fetched)),
                fetched is Ok,
                token_to_sync.version,
                now,
            ),
{
    let mut new_cursor: Option<BlockIndex> = None;
    let mut success = false;
    match fetched {
        Ok(blocks) => {
            if blocks.len() > 0 {
                new_cursor = Some(token_to_sync.from_block + (blocks.len() as u64));
                enqueue_notifications(
                    token_to_sync.token_symbol.as_str(),
                    token_to_sync.ledger_canister_id,
                    blocks,
                    token_to_sync.from_block,
                    state,
                );
            } else {
                proof {
                    assert(state.data@.notifications.queue + blocks_notifications(
                        token_to_sync@.token_symbol,
                        token_to_sync.ledger_canister_id,
                        blocks@,
                        token_to_sync.from_block,
                        state.data@.subscriptions,
                    ) =~= state.data@.notifications.queue);
                }
            }
            success = true;
        },
        Err(_) => {},
    }
    let ghost tokens_then = state.data@.tokens;
    proof {
        assert(tokens_then == old(state).data@.tokens);
        assert(new_cursor == cursor_after(token_to_sync.from_block, fetched_blocks(fetched)));
        assert(success == (fetched is Ok));
    }
    mark_sync_complete(
        token_to_sync.token_symbol.as_str(),
        new_cursor,
        success,
        token_to_sync.version,
        state,
    );
    proof {
        let now = choose|now: TimestampMillis|
            state.data@.tokens == #[trigger] tokens_after_sync(
                tokens_then,
                token_to_sync@.token_symbol,
                new_cursor,
                success,
                token_to_sync.version,
                now,
            );
        assert(state.data@.tokens == tokens_after_sync(
            old(state).data@.tokens,
            token_to_sync@.token_symbol,
            cursor_after(token_to_sync.from_block, fetched_blocks(fetched)),
            fetched is Ok,
            token_to_sync.version,
            now,
        ));
    }
}

/// What a sync attempt asks the ledger for: the blocks from the claimed
/// cursor on, at most [`MAX_BLOCKS_PER_SYNC`] of them.
pub fn blocks_request(token_to_sync: &TokenToSync) -> (args: GetBlocksArgs)
    ensures
        args == (GetBlocksArgs { start: token_to_sync.from_block, length: MAX_BLOCKS_PER_SYNC }),
{
    GetBlocksArgs { start: token_to_sync.from_block, length: MAX_BLOCKS_PER_SYNC }
}

proof fn lemma_filter_none<T>(s: Seq<T>, pred: spec_fn(T) -> bool)
    requires
        forall|i: int| 0 <= i < s.len() ==> !pred(#[trigger] s[i]),
    ensures
        s.filter(pred) == Seq::<T>::empty(),
    decreases s.len(),
{
    reveal(Seq::filter);
    if s.len() > 0 {
        assert forall|i: int| 0 <= i < s.drop_last().len() implies !pred(
            #[trigger] s.drop_last()[i],
        ) by {
            assert(s.drop_last()[i] == s[i]);
        }
        lemma_filter_none(s.drop_last(), pred);
        assert(!pred(s[s.len() - 1]));
    }
}

proof fn lemma_no_claims(tokens: Seq<TokenDataView>)
    requires
        forall|i: int| 0 <= i < tokens.len() ==> !(#[trigger] tokens[i]).sync.claimable(),
    ensures
        claims_of_tick(tokens) == Seq::<TokenToSyncView>::empty(),
{
    let due = |t: TokenDataView| t.sync.claimable();
    assert forall|i: int| 0 <= i < tokens.len() implies !due(#[trigger] tokens[i]) by {
        assert(!tokens[i].sync.claimable());
    }
    lemma_filter_none(tokens, due);
    assert(claims_of_tick(tokens) =~= Seq::<TokenToSyncView>::empty());
}

/// A tick leaves every ledger that was due with a sync in flight, claims no
/// ledger that was not due, and leaves nothing for a tick that follows at
/// once: that one claims no ledger and changes none.
pub proof fn lemma_tick_claims_once(
    tokens: Seq<TokenDataView>,
    now: TimestampMillis,
    later: TimestampMillis,
)
    ensures
        tokens_after_tick(tokens, now).len() == tokens.len(),
        forall|i: int|
            0 <= i < tokens.len() && (#[trigger] tokens[i]).sync.claimable() ==> tokens_after_tick(
                tokens,
                now,
            )[i].sync.in_progress,
        forall|i: int|
            0 <= i < tokens.len() && !(#[trigger] tokens[i]).sync.claimable() ==> tokens_after_tick(
                tokens,
                now,
            )[i] == tokens[i],
        claims_of_tick(tokens_after_tick(tokens, now)) == Seq::<TokenToSyncView>::empty(),
        tokens_after_tick(tokens_after_tick(tokens, now), later) == tokens_after_tick(tokens, now),
{
    let after = tokens_after_tick(tokens, now);
    lemma_no_claims(after);
    assert(tokens_after_tick(after, later) =~= after);
}

/// The sync that holds the claim on a ledger and fetched `n > 0` blocks from
/// `from_block` leaves the ledger's cursor at `from_block + n`, releases the
/// claim and dates the success; no other ledger changes.
pub proof fn lemma_sync_moves_cursor(
    tokens: Seq<TokenDataView>,
    i: int,
    from_block: BlockIndex,
    blocks: Seq<Block>,
    now: TimestampMillis,
)
    requires
        symbols_distinct(tokens),
        0 <= i < tokens.len(),
        blocks.len() > 0,
        from_block + blocks.len() <= u64::MAX,
    ensures
        ({
            let after = tokens_after_sync(
                tokens,
                tokens[i].token_symbol,
                cursor_after(from_block, Some(blocks)),
                true,
                tokens[i].sync.version,
                now,
            );
            &&& after.len() == tokens.len()
            &&& after[i].sync.next_block_to_sync == from_block + blocks.len()
            &&& !after[i].sync.in_progress
            &&& after[i].sync.last_successful_sync == now
            &&& after[i].sync.version == tokens[i].sync.version
            &&& forall|j: int| 0 <= j < tokens.len() && j != i ==> after[j] == tokens[j]
        }),
{
    let after = tokens_after_sync(
        tokens,
        tokens[i].token_symbol,
        cursor_after(from_block, Some(blocks)),
        true,
        tokens[i].sync.version,
        now,
    );
    assert forall|j: int| 0 <= j < tokens.len() && j != i implies after[j] == tokens[j] by {
        if j < i {
            assert(tokens[j].token_symbol != tokens[i].token_symbol);
        } else {
            assert(tokens[i].token_symbol != tokens[j].token_symbol);
        }
    }
}

/// A sync that fetched nothing, or whose fetch failed, leaves every cursor
/// where it was.
pub proof fn lemma_sync_without_blocks_keeps_cursor(
    tokens: Seq<TokenDataView>,
    token_symbol: Seq<char>,
    success: bool,
    version: Version,
    now: TimestampMillis,
    j: int,
)
    requires
        0 <= j < tokens.len(),
    ensures
        tokens_after_sync(tokens, token_symbol, None, success, version, now)[j].sync.next_block_to_sync
            == tokens[j].sync.next_block_to_sync,
        forall|from_block: BlockIndex| cursor_after(from_block, None) is None,
        forall|from_block: BlockIndex|
            cursor_after(from_block, Some(Seq::<Block>::empty())) is None,
{
}

/// The services to tell about a block are named once each, and they are
/// exactly the services subscribed to one of the accounts it touches.
pub proof fn lemma_notify_targets(
    accounts: Seq<AccountIdentifier>,
    subscriptions: SubscriptionsView,
    canister_id: CanisterId,
)
    requires
        subscriptions_valid(subscriptions),
    ensures
        notify_targets(accounts, subscriptions).no_duplicates(),
        notify_targets(accounts, subscriptions).contains(canister_id) <==> exists|i: int|
            0 <= i < accounts.len() && resolve(subscriptions, #[trigger] accounts[i]).contains(
                canister_id,
            ),
    decreases accounts.len(),
{
    if accounts.len() > 0 {
        let front = accounts.drop_last();
        let last = accounts.last();
        lemma_notify_targets(front, subscriptions, canister_id);
        lemma_extend_unique_no_duplicates(
            notify_targets(front, subscriptions),
            subscribers_of(subscriptions, last),
        );
        lemma_extend_unique_contains(
            notify_targets(front, subscriptions),
            subscribers_of(subscriptions, last),
            canister_id,
        );
        if notify_targets(front, subscriptions).contains(canister_id) {
            let i = choose|i: int|
                0 <= i < front.len() && resolve(subscriptions, #[trigger] front[i]).contains(
                    canister_id,
                );
            assert(accounts[i] == front[i]);
        }
        if subscribers_of(subscriptions, last).contains(canister_id) {
            assert(resolve(subscriptions, accounts[accounts.len() - 1]).contains(canister_id));
        }
        if exists|i: int|
            0 <= i < accounts.len() && resolve(subscriptions, #[trigger] accounts[i]).contains(
                canister_id,
            ) {
            let i = choose|i: int|
                0 <= i < accounts.len() && resolve(subscriptions, #[trigger] accounts[i]).contains(
                    canister_id,
                );
            if i < front.len() {
                assert(front[i] == accounts[i]);
            } else {
                assert(subscribers_of(subscriptions, last).contains(canister_id));
            }
        }
    }
}

/// A block gives no service two notifications, and gives a service one
/// exactly if the service is subscribed to an account that the block touches.
pub proof fn lemma_one_notification_per_subscriber(
    token_symbol: Seq<char>,
    ledger_canister_id: CanisterId,
    block_index: BlockIndex,
    block: Block,
    subscriptions: SubscriptionsView,
    canister_id: CanisterId,
)
    requires
        subscriptions_valid(subscriptions),
    ensures
        ({
            let notifications = block_notifications(
                token_symbol,
                ledger_canister_id,
                block_index,
                block,
                subscriptions,
            );
            let accounts = touched_accounts(block.transaction.operation);
            &&& forall|a: int, b: int|
                0 <= a < b < notifications.len() ==> (#[trigger] notifications[a]).canister_id != (
                #[trigger] notifications[b]).canister_id
            &&& (exists|a: int|
                0 <= a < notifications.len() && (#[trigger] notifications[a]).canister_id
                    == canister_id) <==> (exists|i: int|
                0 <= i < accounts.len() && resolve(subscriptions, #[trigger] accounts[i]).contains(
                    canister_id,
                ))
        }),
{
    let notifications = block_notifications(
        token_symbol,
        ledger_canister_id,
        block_index,
        block,
        subscriptions,
    );
    let accounts = touched_accounts(block.transaction.operation);
    let targets = notify_targets(accounts, subscriptions);
    lemma_notify_targets(accounts, subscriptions, canister_id);
    if targets.contains(canister_id) {
        let a = choose|a: int| 0 <= a < targets.len() && targets[a] == canister_id;
        assert(notifications[a].canister_id == canister_id);
    }
    if exists|a: int|
        0 <= a < notifications.len() && (#[trigger] notifications[a]).canister_id == canister_id {
        let a = choose|a: int|
            0 <= a < notifications.len() && (#[trigger] notifications[a]).canister_id
                == canister_id;
        assert(targets[a] == canister_id);
    }
}

/// The notifications of a run of blocks are those of a first part of the run
/// followed by those of the rest.
pub proof fn lemma_blocks_notifications_append(
    token_symbol: Seq<char>,
    ledger_canister_id: CanisterId,
    first: Seq<Block>,
    rest: Seq<Block>,
    from_block_index: BlockIndex,
    subscriptions: SubscriptionsView,
)
    requires
        from_block_index + first.len() + rest.len() <= u64::MAX,
    ensures
        blocks_notifications(
            token_symbol,
            ledger_canister_id,
            first + rest,
            from_block_index,
            subscriptions,
        ) == blocks_notifications(
            token_symbol,
            ledger_canister_id,
            first,
            from_block_index,
            subscriptions,
        ) + blocks_notifications(
            token_symbol,
            ledger_canister_id,
            rest,
            (from_block_index + first.len()) as u64,
            subscriptions,
        ),
    decreases rest.len(),
{
    let mid = (from_block_index + first.len()) as u64;
    if rest.len() == 0 {
        assert(first + rest =~= first);
        assert(blocks_notifications(token_symbol, ledger_canister_id, first, from_block_index, subscriptions)
            + Seq::<NotificationView>::empty() =~= blocks_notifications(
            token_symbol,
            ledger_canister_id,
            first,
            from_block_index,
            subscriptions,
        ));
    } else {
        lemma_blocks_notifications_append(
            token_symbol,
            ledger_canister_id,
            first,
            rest.drop_last(),
            from_block_index,
            subscriptions,
        );
        assert((first + rest).drop_last() =~= first + rest.drop_last());
        assert((first + rest).last() == rest.last());
        let head = blocks_notifications(
            token_symbol,
            ledger_canister_id,
            first,
            from_block_index,
            subscriptions,
        );
        let middle = blocks_notifications(
            token_symbol,
            ledger_canister_id,
            rest.drop_last(),
            mid,
            subscriptions,
        );
        let tail = block_notifications(
            token_symbol,
            ledger_canister_id,
            (mid + rest.len() - 1) as u64,
            rest.last(),
            subscriptions,
        );
        assert((head + middle) + tail =~= head + (middle + tail));
    }
}

/// The notifications of a run of blocks stand in the order of the blocks:
/// block indices never decrease along them, and each lies within the run.
pub proof fn lemma_blocks_notifications_in_order(
    token_symbol: Seq<char>,
    ledger_canister_id: CanisterId,
    blocks: Seq<Block>,
    from_block_index: BlockIndex,
    subscriptions: SubscriptionsView,
)
    requires
        from_block_index + blocks.len() <= u64::MAX,
    ensures
        ({
            let notifications = blocks_notifications(
                token_symbol,
                ledger_canister_id,
                blocks,
                from_block_index,
                subscriptions,
            );
            &&& forall|a: int|
                0 <= a < notifications.len() ==> from_block_index <= (
                #[trigger] notifications[a]).args.block_index < from_block_index + blocks.len()
            &&& forall|a: int|
                0 <= a < notifications.len() ==> (#[trigger] notifications[a]).args.block
                    == blocks[notifications[a].args.block_index - from_block_index]
            &&& forall|a: int, b: int|
                0 <= a < b < notifications.len() ==> (#[trigger] notifications[a]).args.block_index
                    <= (#[trigger] notifications[b]).args.block_index
        }),
    decreases blocks.len(),
{
    if blocks.len() > 0 {
        lemma_blocks_notifications_in_order(
            token_symbol,
            ledger_canister_id,
            blocks.drop_last(),
            from_block_index,
            subscriptions,
        );
        let front = blocks_notifications(
            token_symbol,
            ledger_canister_id,
            blocks.drop_last(),
            from_block_index,
            subscriptions,
        );
        let last = block_notifications(
            token_symbol,
            ledger_canister_id,
            (from_block_index + blocks.len() - 1) as u64,
            blocks.last(),
            subscriptions,
        );
        let notifications = front + last;
        assert forall|a: int| 0 <= a < notifications.len() implies from_block_index <= (
        #[trigger] notifications[a]).args.block_index < from_block_index + blocks.len()
            && notifications[a].args.block == blocks[notifications[a].args.block_index
            - from_block_index] by {
            if a < front.len() {
                assert(notifications[a] == front[a]);
                assert(blocks.drop_last()[front[a].args.block_index - from_block_index]
                    == blocks[front[a].args.block_index - from_block_index]);
            } else {
                assert(notifications[a] == last[a - front.len()]);
            }
        }
        assert forall|a: int, b: int| 0 <= a < b < notifications.len() implies (
        #[trigger] notifications[a]).args.block_index <= (
        #[trigger] notifications[b]).args.block_index by {
            if b < front.len() {
                assert(notifications[a] == front[a]);
                assert(notifications[b] == front[b]);
            } else {
                assert(notifications[b] == last[b - front.len()]);
                if a < front.len() {
                    assert(notifications[a] == front[a]);
                } else {
                    assert(notifications[a] == last[a - front.len()]);
                }
            }
        }
    }
}

} // verus!

use transaction_notifier::block::{AccountIdentifier, Block, GetBlocksArgs, Operation, Transaction};
use transaction_notifier::env::Environment;
use transaction_notifier::lifecycle::block_source::TransportError;
use transaction_notifier::lifecycle::push_notifications::{next_batch, push_completed};
use transaction_notifier::lifecycle::sync_ledger_transactions::{
    blocks_request, claim_tokens_to_sync, complete_sync, enqueue_notifications,
    extract_account_identifiers, extract_canisters_to_notify, finish_sync_token,
    mark_sync_complete, tokens_to_sync, TokenToSync,
};
use transaction_notifier::model::subscriptions::Subscriptions;
use transaction_notifier::types::{CallError, Principal, RejectionCode};
use transaction_notifier::updates::add_token::{add_token_impl, Response as AddTokenResponse};
use transaction_notifier::updates::subscribe::{
    subscribe_impl, Args as SubscribeArgs, Subscription,
};
use transaction_notifier::updates::update_token_config::{
    update_token_config_impl, Args as UpdateArgs, Response as UpdateResponse,
};
use transaction_notifier::{Data, State};

struct FixedEnv {
    now: u64,
}

impl Environment for FixedEnv {
    fn now(&self) -> u64 {
        self.now
    }

    fn caller(&self) -> Principal {
        principal(250)
    }

    fn canister_id(&self) -> Principal {
        principal(251)
    }

    fn cycles_balance(&self) -> u128 {
        0
    }
}

fn principal(n: u8) -> Principal {
    let mut bytes: [u8; 29] = [0; 29];
    bytes[0] = n;
    Principal { len: 1, bytes }
}

fn account(n: u8) -> AccountIdentifier {
    AccountIdentifier { bytes: [n; 32] }
}

fn block(operation: Option<Operation>) -> Block {
    Block {
        parent_hash: None,
        transaction: Transaction { memo: 0, operation, created_at_time: 0 },
        timestamp: 0,
    }
}

fn transfer(from: u8, to: u8) -> Block {
    block(Some(Operation::Transfer { from: account(from), to: account(to), amount: 5, fee: 1 }))
}

fn state_at(now: u64) -> State {
    State::new(
        Box::new(FixedEnv { now }),
        Data::new(vec![principal(1)], "notify_transaction".to_string(), false),
    )
}

fn set_clock(state: &mut State, now: u64) {
    state.env = Box::new(FixedEnv { now });
}

fn subscribe(state: &mut State, account_number: u8, subscribers: Vec<Principal>) {
    subscribe_impl(
        SubscribeArgs {
            subscriptions: vec![Subscription {
                account_identifier: account(account_number),
                canister_ids: subscribers,
            }],
        },
        state,
    );
}

fn cursor(state: &State, symbol: &str) -> u64 {
    state.data.token(symbol).unwrap().ledger_sync_state().next_block_to_sync()
}

#[test]
fn tick_claims_only_enabled_idle_ledgers() {
    let mut state = state_at(10);
    add_token_impl("FOO".to_string(), principal(100), 100, true, &mut state);
    add_token_impl("BAR".to_string(), principal(101), 7, false, &mut state);
    add_token_impl("BAZ".to_string(), principal(102), 0, true, &mut state);

    let claims = tokens_to_sync(&mut state);
    assert_eq!(
        claims,
        vec![
            TokenToSync {
                token_symbol: "FOO".to_string(),
                ledger_canister_id: principal(100),
                from_block: 100,
                version: 0,
            },
            TokenToSync {
                token_symbol: "BAZ".to_string(),
                ledger_canister_id: principal(102),
                from_block: 0,
                version: 0,
            },
        ]
    );
    let foo = state.data.token("FOO").unwrap().ledger_sync_state();
    assert!(foo.in_progress());
    assert_eq!(foo.last_sync_started_at(), 10);
    let bar = state.data.token("BAR").unwrap().ledger_sync_state();
    assert!(!bar.in_progress());
    assert_eq!(bar.last_sync_started_at(), 0);
}

#[test]
fn second_tick_claims_nothing_while_syncs_are_in_flight() {
    let mut state = state_at(10);
    add_token_impl("FOO".to_string(), principal(100), 100, true, &mut state);
    assert_eq!(tokens_to_sync(&mut state).len(), 1);
    set_clock(&mut state, 11);
    assert!(tokens_to_sync(&mut state).is_empty());
    assert_eq!(
        state.data.token("FOO").unwrap().ledger_sync_state().last_sync_started_at(),
        10
    );
    assert!(claim_tokens_to_sync(&mut state.data, 12).is_empty());
}

#[test]
fn sync_request_starts_at_the_claimed_cursor() {
    let claim = TokenToSync {
        token_symbol: "FOO".to_string(),
        ledger_canister_id: principal(100),
        from_block: 100,
        version: 0,
    };
    assert_eq!(blocks_request(&claim), GetBlocksArgs { start: 100, length: 1000 });
}

#[test]
fn operations_touch_their_accounts() {
    assert_eq!(
        extract_account_identifiers(&Some(Operation::Transfer {
            from: account(1),
            to: account(2),
            amount: 1,
            fee: 1
        })),
        vec![account(1), account(2)]
    );
    assert_eq!(
        extract_account_identifiers(&Some(Operation::Mint { to: account(3), amount: 1 })),
        vec![account(3)]
    );
    assert_eq!(
        extract_account_identifiers(&Some(Operation::Burn { from: account(4), amount: 1 })),
        vec![account(4)]
    );
    assert!(extract_account_identifiers(&None).is_empty());
}

#[test]
fn a_service_following_both_sides_is_told_once() {
    let mut subscriptions = Subscriptions::default();
    subscriptions.add(account(1), vec![principal(10), principal(11)]);
    subscriptions.add(account(2), vec![principal(11), principal(12)]);
    assert_eq!(
        extract_canisters_to_notify(&vec![account(1), account(2)], &subscriptions),
        vec![principal(10), principal(11), principal(12)]
    );
    assert_eq!(
        extract_canisters_to_notify(&vec![account(2), account(1)], &subscriptions),
        vec![principal(11), principal(12), principal(10)]
    );
    assert!(extract_canisters_to_notify(&vec![account(3)], &subscriptions).is_empty());
    assert!(extract_canisters_to_notify(&vec![], &subscriptions).is_empty());
}

#[test]
fn notifications_are_enqueued_block_by_block() {
    let mut state = state_at(1);
    subscribe(&mut state, 1, vec![principal(10)]);
    subscribe(&mut state, 2, vec![principal(20), principal(10)]);
    enqueue_notifications(
        "FOO",
        principal(100),
        vec![transfer(1, 3), transfer(4, 5), transfer(2, 1)],
        7,
        &mut state,
    );
    let batch = next_batch(&mut state).unwrap();
    let told: Vec<(Principal, u64)> =
        batch.notifications.iter().map(|n| (n.canister_id, n.args.block_index)).collect();
    assert_eq!(
        told,
        vec![(principal(10), 7), (principal(20), 9), (principal(10), 9)]
    );
    assert_eq!(batch.notifications[0].args.block, transfer(1, 3));
    assert_eq!(batch.notifications[1].args.block, transfer(2, 1));
    assert_eq!(batch.notifications[1].args.token_symbol, "FOO");
    assert_eq!(batch.notifications[1].args.ledger_canister_id, principal(100));
}

#[test]
fn ledger_added_at_100_syncs_three_blocks() {
    let mut state = state_at(10);
    assert_eq!(
        add_token_impl("FOO".to_string(), principal(100), 100, true, &mut state),
        AddTokenResponse::Success
    );
    subscribe(&mut state, 1, vec![principal(50)]);

    let claims = tokens_to_sync(&mut state);
    assert_eq!(claims.len(), 1);
    assert_eq!(claims[0].from_block, 100);
    assert_eq!(claims[0].version, 0);

    set_clock(&mut state, 20);
    let blocks = vec![
        block(Some(Operation::Mint { to: account(7), amount: 3 })),
        transfer(1, 2),
        block(Some(Operation::Burn { from: account(8), amount: 3 })),
    ];
    finish_sync_token(&claims[0], Ok(blocks), &mut state);

    assert_eq!(cursor(&state, "FOO"), 103);
    let sync_state = state.data.token("FOO").unwrap().ledger_sync_state();
    assert!(!sync_state.in_progress());
    assert_eq!(sync_state.last_successful_sync(), 20);
    assert_eq!(sync_state.last_failed_sync(), 0);
    assert_eq!(state.data.notifications().queue_len(), 1);

    let batch = next_batch(&mut state).unwrap();
    assert_eq!(batch.method_name, "notify_transaction");
    assert_eq!(batch.notifications.len(), 1);
    assert_eq!(batch.notifications[0].canister_id, principal(50));
    assert_eq!(batch.notifications[0].args.block_index, 101);
    assert_eq!(batch.notifications[0].args.block, transfer(1, 2));
    assert_eq!(batch.notifications[0].args.token_symbol, "FOO");
    assert_eq!(batch.notifications[0].args.ledger_canister_id, principal(100));
    assert!(state.data.notifications().is_queue_empty());

    push_completed(&Ok(()), &mut state);
    assert_eq!(state.data.notifications().total_sent(), 1);
    assert!(next_batch(&mut state).is_none());
}

#[test]
fn empty_fetch_completes_without_moving_the_cursor() {
    let mut state = state_at(10);
    add_token_impl("FOO".to_string(), principal(100), 100, true, &mut state);
    let claims = tokens_to_sync(&mut state);
    set_clock(&mut state, 20);
    finish_sync_token(&claims[0], Ok(vec![]), &mut state);
    assert_eq!(cursor(&state, "FOO"), 100);
    let sync_state = state.data.token("FOO").unwrap().ledger_sync_state();
    assert!(!sync_state.in_progress());
    assert_eq!(sync_state.last_successful_sync(), 20);
    assert!(state.data.notifications().is_queue_empty());
}

#[test]
fn failed_fetch_is_retried_from_the_same_cursor() {
    let mut state = state_at(10);
    add_token_impl("FOO".to_string(), principal(100), 100, true, &mut state);
    subscribe(&mut state, 1, vec![principal(50)]);
    let claims = tokens_to_sync(&mut state);
    set_clock(&mut state, 20);
    finish_sync_token(
        &claims[0],
        Err(TransportError::CallFailed(CallError {
            code: RejectionCode::SysTransient,
            message: "busy".to_string(),
        })),
        &mut state,
    );
    assert_eq!(cursor(&state, "FOO"), 100);
    let sync_state = state.data.token("FOO").unwrap().ledger_sync_state();
    assert!(!sync_state.in_progress());
    assert_eq!(sync_state.last_failed_sync(), 20);
    assert_eq!(sync_state.last_successful_sync(), 0);
    assert!(state.data.notifications().is_queue_empty());

    set_clock(&mut state, 30);
    let retry = tokens_to_sync(&mut state);
    assert_eq!(retry.len(), 1);
    assert_eq!(retry[0].from_block, 100);
}

#[test]
fn override_during_sync_keeps_its_cursor() {
    let mut state = state_at(10);
    add_token_impl("FOO".to_string(), principal(100), 100, true, &mut state);
    let claims = tokens_to_sync(&mut state);
    assert_eq!((claims[0].from_block, claims[0].version), (100, 0));

    let response = update_token_config_impl(
        UpdateArgs {
            token_symbol: "FOO".to_string(),
            sync_enabled: None,
            sync_from_block_index: Some(50),
        },
        &mut state,
    );
    assert_eq!(response, UpdateResponse::Success);
    assert_eq!(state.data.token("FOO").unwrap().ledger_sync_state().version(), 1);
    assert_eq!(cursor(&state, "FOO"), 50);

    finish_sync_token(&claims[0], Ok(vec![transfer(1, 2), transfer(1, 2), transfer(1, 2)]), &mut state);
    assert_eq!(cursor(&state, "FOO"), 50);
    let sync_state = state.data.token("FOO").unwrap().ledger_sync_state();
    assert_eq!(sync_state.version(), 1);
    assert!(!sync_state.in_progress());

    let next = tokens_to_sync(&mut state);
    assert_eq!((next[0].from_block, next[0].version), (50, 1));
}

#[test]
fn completing_an_unknown_ledger_changes_nothing() {
    let mut state = state_at(10);
    add_token_impl("FOO".to_string(), principal(100), 100, true, &mut state);
    tokens_to_sync(&mut state);
    mark_sync_complete("BAR", Some(5), true, 0, &mut state);
    assert_eq!(cursor(&state, "FOO"), 100);
    assert!(state.data.token("FOO").unwrap().ledger_sync_state().in_progress());
    complete_sync(&mut state.data, "FOO", Some(105), true, 0, 33);
    assert_eq!(cursor(&state, "FOO"), 105);
    assert_eq!(
        state.data.token("FOO").unwrap().ledger_sync_state().last_successful_sync(),
        33
    );
}

use transaction_notifier::block::{Block, Transaction};
use transaction_notifier::env::Environment;
use transaction_notifier::lifecycle::push_notifications::{
    next_batch, push_completed, MAX_NOTIFICATIONS_PER_BATCH,
};
use transaction_notifier::lifecycle::sync_ledger_transactions::enqueue_notifications;
use transaction_notifier::block::{AccountIdentifier, Operation};
use transaction_notifier::types::{CallError, Principal, RejectionCode};
use transaction_notifier::updates::subscribe::{subscribe_impl, Args, Response, Subscription};
use transaction_notifier::{Data, State};

struct FixedEnv;

impl Environment for FixedEnv {
    fn now(&self) -> u64 {
        1
    }

    fn caller(&self) -> Principal {
        principal(250)
    }

    fn canister_id(&self) -> Principal {
        principal(251)
    }

    fn cycles_balance(&self) -> u128 {
        0
    }
}

fn principal(n: u8) -> Principal {
    let mut bytes: [u8; 29] = [0; 29];
    bytes[0] = n;
    Principal { len: 1, bytes }
}

fn mint(to: u8) -> Block {
    Block {
        parent_hash: None,
        transaction: Transaction {
            memo: 0,
            operation: Some(Operation::Mint { to: AccountIdentifier { bytes: [to; 32] }, amount: 1 }),
            created_at_time: 0,
        },
        timestamp: 0,
    }
}

fn state_with_queue(pending: usize) -> State {
    let mut state = State::new(
        Box::new(FixedEnv),
        Data::new(vec![], "on_transaction".to_string(), true),
    );
    let response = subscribe_impl(
        Args {
            subscriptions: vec![Subscription {
                account_identifier: AccountIdentifier { bytes: [1; 32] },
                canister_ids: vec![principal(9)],
            }],
        },
        &mut state,
    );
    assert_eq!(response, Response::Success);
    let blocks: Vec<Block> = (0..pending).map(|_| mint(1)).collect();
    enqueue_notifications("FOO", principal(100), blocks, 0, &mut state);
    state
}

#[test]
fn nothing_queued_means_no_batch() {
    let mut state = state_with_queue(0);
    assert!(next_batch(&mut state).is_none());
}

#[test]
fn a_batch_holds_at_most_five_of_the_oldest() {
    assert_eq!(MAX_NOTIFICATIONS_PER_BATCH, 5);
    let mut state = state_with_queue(7);
    let first = next_batch(&mut state).unwrap();
    let indices: Vec<u64> = first.notifications.iter().map(|n| n.args.block_index).collect();
    assert_eq!(indices, vec![0, 1, 2, 3, 4]);
    assert_eq!(first.method_name, "on_transaction");
    assert_eq!(state.data.notifications().queue_len(), 2);

    let second = next_batch(&mut state).unwrap();
    let indices: Vec<u64> = second.notifications.iter().map(|n| n.args.block_index).collect();
    assert_eq!(indices, vec![5, 6]);
    assert!(next_batch(&mut state).is_none());
}

#[test]
fn exactly_five_queued_leave_nothing() {
    let mut state = state_with_queue(5);
    assert_eq!(next_batch(&mut state).unwrap().notifications.len(), 5);
    assert!(state.data.notifications().is_queue_empty());
}

#[test]
fn only_delivered_pushes_are_counted() {
    let mut state = state_with_queue(3);
    let batch = next_batch(&mut state).unwrap();
    assert_eq!(batch.notifications.len(), 3);
    push_completed(&Ok(()), &mut state);
    push_completed(
        &Err(CallError { code: RejectionCode::CanisterReject, message: "no".to_string() }),
        &mut state,
    );
    push_completed(&Ok(()), &mut state);
    assert_eq!(state.data.notifications().total_sent(), 2);
    assert!(state.data.notifications().is_queue_empty());
}

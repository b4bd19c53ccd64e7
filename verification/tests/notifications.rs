use transaction_notifier::block::{Block, Transaction};
use transaction_notifier::model::notifications::{
    Notification, Notifications, NotifyTransactionArgs,
};
use transaction_notifier::model::notifications_queue::NotificationsQueue;
use transaction_notifier::types::Principal;

fn principal(n: u8) -> Principal {
    let mut bytes: [u8; 29] = [0; 29];
    bytes[0] = n;
    Principal { len: 1, bytes }
}

fn notification(to: u8, block_index: u64) -> Notification {
    Notification {
        canister_id: principal(to),
        args: NotifyTransactionArgs {
            token_symbol: "FOO".to_string(),
            ledger_canister_id: principal(200),
            block_index,
            block: Block {
                parent_hash: None,
                transaction: Transaction { memo: 0, operation: None, created_at_time: 0 },
                timestamp: 0,
            },
        },
    }
}

#[test]
fn queue_is_first_in_first_out() {
    let mut notifications = Notifications::default();
    assert!(notifications.is_queue_empty());
    assert_eq!(notifications.queue_len(), 0);
    assert!(notifications.dequeue().is_none());
    notifications.enqueue(notification(1, 10));
    notifications.enqueue(notification(2, 11));
    notifications.enqueue(notification(3, 12));
    assert!(!notifications.is_queue_empty());
    assert_eq!(notifications.queue_len(), 3);
    assert_eq!(notifications.dequeue(), Some(notification(1, 10)));
    assert_eq!(notifications.dequeue(), Some(notification(2, 11)));
    assert_eq!(notifications.queue_len(), 1);
    assert_eq!(notifications.dequeue(), Some(notification(3, 12)));
    assert!(notifications.dequeue().is_none());
    assert!(notifications.is_queue_empty());
}

#[test]
fn mark_sent_counts_deliveries() {
    let mut notifications = Notifications::default();
    assert_eq!(notifications.total_sent(), 0);
    notifications.mark_sent();
    notifications.mark_sent();
    assert_eq!(notifications.total_sent(), 2);
    notifications.enqueue(notification(1, 1));
    assert_eq!(notifications.total_sent(), 2);
    assert_eq!(notifications.queue_len(), 1);
}

#[test]
fn bare_queue_is_first_in_first_out() {
    let mut queue = NotificationsQueue::default();
    assert!(queue.is_empty());
    assert!(queue.take().is_none());
    queue.add(notification(1, 10));
    queue.add(notification(2, 11));
    assert!(!queue.is_empty());
    assert_eq!(queue.take(), Some(notification(1, 10)));
    assert_eq!(queue.take(), Some(notification(2, 11)));
    assert!(queue.is_empty());
}

use transaction_notifier::block::AccountIdentifier;
use transaction_notifier::model::subscriptions::Subscriptions;
use transaction_notifier::types::Principal;

fn principal(n: u8) -> Principal {
    let mut bytes: [u8; 29] = [0; 29];
    bytes[0] = n;
    Principal { len: 1, bytes }
}

fn account(n: u8) -> AccountIdentifier {
    AccountIdentifier { bytes: [n; 32] }
}

#[test]
fn unknown_account_resolves_to_nothing() {
    let subscriptions = Subscriptions::default();
    assert_eq!(subscriptions.len(), 0);
    assert!(subscriptions.get(&account(1)).is_none());
}

#[test]
fn add_unions_subscribers() {
    let mut subscriptions = Subscriptions::default();
    subscriptions.add(account(1), vec![principal(1), principal(2)]);
    subscriptions.add(account(1), vec![principal(2), principal(3)]);
    subscriptions.add(account(2), vec![principal(9)]);
    assert_eq!(
        subscriptions.get(&account(1)),
        Some(&vec![principal(1), principal(2), principal(3)])
    );
    assert_eq!(subscriptions.get(&account(2)), Some(&vec![principal(9)]));
    assert_eq!(subscriptions.len(), 2);
}

#[test]
fn subscribing_twice_is_subscribing_once() {
    let mut once = Subscriptions::default();
    once.add(account(1), vec![principal(5)]);
    let mut twice = Subscriptions::default();
    twice.add(account(1), vec![principal(5)]);
    twice.add(account(1), vec![principal(5)]);
    assert_eq!(once.get(&account(1)), twice.get(&account(1)));
    assert_eq!(twice.get(&account(1)), Some(&vec![principal(5)]));
    assert_eq!(twice.len(), 1);
}

#[test]
fn duplicates_within_one_request_collapse() {
    let mut subscriptions = Subscriptions::default();
    subscriptions.add(account(1), vec![principal(5), principal(5), principal(6), principal(5)]);
    assert_eq!(subscriptions.get(&account(1)), Some(&vec![principal(5), principal(6)]));
}

#[test]
fn account_without_subscribers_is_not_counted() {
    let mut subscriptions = Subscriptions::default();
    subscriptions.add(account(1), vec![]);
    assert_eq!(subscriptions.len(), 0);
    assert!(subscriptions.get(&account(1)).is_none());
    subscriptions.add(account(1), vec![principal(1)]);
    subscriptions.add(account(1), vec![]);
    assert_eq!(subscriptions.len(), 1);
    assert_eq!(subscriptions.get(&account(1)), Some(&vec![principal(1)]));
}

#[test]
fn identifiers_compare_by_value() {
    assert!(principal(1).same(&principal(1)));
    assert!(!principal(1).same(&principal(2)));
    let longer = Principal { len: 2, bytes: principal(1).bytes };
    assert!(!principal(1).same(&longer));
    assert!(account(3).same(&account(3)));
    let mut other = account(3);
    other.bytes[31] = 4;
    assert!(!account(3).same(&other));
}

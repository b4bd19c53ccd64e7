pub mod ledger_sync_state;
pub mod notifications;
pub mod notifications_queue;
pub mod subscriptions;
pub mod token_data;

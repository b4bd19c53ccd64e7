pub mod block_source;
pub mod init;
pub mod push_notifications;
pub mod sync_ledger_transactions;

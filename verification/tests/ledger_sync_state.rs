use transaction_notifier::model::ledger_sync_state::{LedgerSyncState, TryStartSyncResult};

#[test]
fn new_state_is_disabled() {
    let mut state = LedgerSyncState::new(100);
    assert!(!state.enabled());
    assert!(!state.in_progress());
    assert_eq!(state.next_block_to_sync(), 100);
    assert_eq!(state.version(), 0);
    assert_eq!(state.last_sync_started_at(), 0);
    assert_eq!(state.last_successful_sync(), 0);
    assert_eq!(state.last_failed_sync(), 0);
    assert_eq!(state.try_start(5), TryStartSyncResult::Disabled);
    assert!(!state.in_progress());
    assert_eq!(state.last_sync_started_at(), 0);
}

#[test]
fn try_start_claims_and_reports_cursor_and_version() {
    let mut state = LedgerSyncState::new(100);
    state.set_enabled(true);
    assert_eq!(state.try_start(7), TryStartSyncResult::Success(100, 0));
    assert!(state.in_progress());
    assert_eq!(state.last_sync_started_at(), 7);
    assert_eq!(state.next_block_to_sync(), 100);
}

#[test]
fn second_claim_is_refused_until_completion() {
    let mut state = LedgerSyncState::new(0);
    state.set_enabled(true);
    assert_eq!(state.try_start(1), TryStartSyncResult::Success(0, 0));
    assert_eq!(state.try_start(2), TryStartSyncResult::AlreadyInProgress);
    assert_eq!(state.last_sync_started_at(), 1);
    state.mark_sync_complete(true, 3);
    assert!(!state.in_progress());
    assert_eq!(state.try_start(4), TryStartSyncResult::Success(0, 0));
    assert_eq!(state.last_sync_started_at(), 4);
}

#[test]
fn disabling_wins_over_in_progress() {
    let mut state = LedgerSyncState::new(0);
    state.set_enabled(true);
    assert_eq!(state.try_start(1), TryStartSyncResult::Success(0, 0));
    state.set_enabled(false);
    assert_eq!(state.try_start(2), TryStartSyncResult::Disabled);
    assert!(state.in_progress());
}

#[test]
fn completion_dates_success_and_failure() {
    let mut state = LedgerSyncState::new(0);
    state.set_enabled(true);
    state.try_start(10);
    state.mark_sync_complete(false, 11);
    assert_eq!(state.last_failed_sync(), 11);
    assert_eq!(state.last_successful_sync(), 0);
    assert!(!state.in_progress());
    state.try_start(12);
    state.mark_sync_complete(true, 13);
    assert_eq!(state.last_failed_sync(), 11);
    assert_eq!(state.last_successful_sync(), 13);
    state.mark_sync_complete(true, 14);
    assert!(!state.in_progress());
    assert_eq!(state.last_successful_sync(), 14);
}

#[test]
fn cursor_write_with_current_version_applies() {
    let mut state = LedgerSyncState::new(100);
    state.set_next_block_to_sync(103, Some(0));
    assert_eq!(state.next_block_to_sync(), 103);
    state.set_next_block_to_sync(7, None);
    assert_eq!(state.next_block_to_sync(), 7);
}

#[test]
fn cursor_write_with_stale_version_is_dropped() {
    let mut state = LedgerSyncState::new(100);
    state.set_enabled(true);
    assert_eq!(state.try_start(1), TryStartSyncResult::Success(100, 0));
    state.set_next_block_to_sync(50, None);
    state.incr_version();
    assert_eq!(state.version(), 1);
    state.set_next_block_to_sync(103, Some(0));
    assert_eq!(state.next_block_to_sync(), 50);
    state.mark_sync_complete(true, 2);
    assert_eq!(state.next_block_to_sync(), 50);
    assert_eq!(state.try_start(3), TryStartSyncResult::Success(50, 1));
}

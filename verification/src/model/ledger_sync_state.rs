//! The per-ledger sync state machine: a cursor, a claim flag that admits one
//! sync attempt at a time, and a version counter that lets an administrative
//! cursor override win over a sync that was claimed before it.

use vstd::prelude::*;
use crate::block::BlockIndex;
use crate::types::TimestampMillis;

verus! {

/// Counts the administrative cursor overrides of one ledger.
pub type Version = u32;

pub struct LedgerSyncState {
    enabled: bool,
    in_progress: bool,
    next_block_to_sync: BlockIndex,
    last_sync_started_at: TimestampMillis,
    last_successful_sync: TimestampMillis,
    last_failed_sync: TimestampMillis,
    version: Version,
}

/// Answer of [`LedgerSyncState::try_start`].
#[derive(Clone, Copy, Debug, PartialEq, Eq)]
pub enum TryStartSyncResult {
    /// The attempt is claimed; carries the cursor and the version at claim time.
    Success(BlockIndex, Version),
    AlreadyInProgress,
    Disabled,
}

/// The state of one ledger's sync as a plain record.
pub struct SyncStateView {
    pub enabled: bool,
    pub in_progress: bool,
    /// The next block index that a sync attempt fetches.
    pub next_block_to_sync: BlockIndex,
    pub last_sync_started_at: TimestampMillis,
    pub last_successful_sync: TimestampMillis,
    pub last_failed_sync: TimestampMillis,
    pub version: Version,
}

impl SyncStateView {
    /// The state of a ledger that was just added: disabled, idle, version 0.
    pub open spec fn initial(next_block_to_sync: BlockIndex) -> SyncStateView {
        SyncStateView {
            enabled: false,
            in_progress: false,
            next_block_to_sync,
            last_sync_started_at: 0,
            last_successful_sync: 0,
            last_failed_sync: 0,
            version: 0,
        }
    }

    /// A sync attempt can be claimed: syncing is enabled and none is in flight.
    pub open spec fn claimable(self) -> bool {
        self.enabled && !self.in_progress
    }

    /// What a claim answers in this state.
    pub open spec fn claim_result(self) -> TryStartSyncResult {
        if !self.enabled {
            TryStartSyncResult::Disabled
        } else if self.in_progress {
            TryStartSyncResult::AlreadyInProgress
        } else {
            TryStartSyncResult::Success(self.next_block_to_sync, self.version)
        }
    }

    /// The state after a claim at time `now`: unchanged unless the claim succeeds.
    pub open spec fn claim(self, now: TimestampMillis) -> SyncStateView {
        if self.claimable() {
            SyncStateView { in_progress: true, last_sync_started_at: now, ..self }
        } else {
            self
        }
    }

    /// The state after a cursor write guarded by `version_check`: the write
    /// takes effect when there is no guard or the guard is the current version.
    pub open spec fn advance_cursor(
        self,
        block_index: BlockIndex,
        version_check: Option<Version>,
    ) -> SyncStateView {
        if version_check is None || version_check == Some(self.version) {
            SyncStateView { next_block_to_sync: block_index, ..self }
        } else {
            self
        }
    }

    /// The state after a sync attempt ended at time `now`.
    pub open spec fn complete(self, success: bool, now: TimestampMillis) -> SyncStateView {
        if success {
            SyncStateView { in_progress: false, last_successful_sync: now, ..self }
        } else {
            SyncStateView { in_progress: false, last_failed_sync: now, ..self }
        }
    }

    /// The state after one more cursor override has been counted.
    pub open spec fn bump_version(self) -> SyncStateView
        recommends
            self.version < u32::MAX,
    {
        SyncStateView { version: (self.version + 1) as u32, ..self }
    }

    /// The state after an administrative change: `enabled` is replaced where
    /// one is given; a cursor override replaces the cursor unconditionally
    /// and counts as a new version.
    pub open spec fn reconfigure(
        self,
        enabled: Option<bool>,
        cursor_override: Option<BlockIndex>,
    ) -> SyncStateView
        recommends
            cursor_override is Some ==> self.version < u32::MAX,
    {
        let toggled = match enabled {
            Some(e) => SyncStateView { enabled: e, ..self },
            None => self,
        };
        match cursor_override {
            Some(block_index) => toggled.advance_cursor(block_index, None).bump_version(),
            None => toggled,
        }
    }
}

impl View for LedgerSyncState {
    type V = SyncStateView;

    closed spec fn view(&self) -> SyncStateView {
        SyncStateView {
            enabled: self.enabled,
            in_progress: self.in_progress,
            next_block_to_sync: self.next_block_to_sync,
            last_sync_started_at: self.last_sync_started_at,
            last_successful_sync: self.last_successful_sync,
            last_failed_sync: self.last_failed_sync,
            version: self.version,
        }
    }
}

impl LedgerSyncState {
    pub fn new(next_block_to_sync: BlockIndex) -> (state: LedgerSyncState)
        ensures
            state@ == SyncStateView::initial(next_block_to_sync),
    {
        LedgerSyncState {
            enabled: false,
            in_progress: false,
            next_block_to_sync,
            last_sync_started_at: 0,
            last_successful_sync: 0,
            last_failed_sync: 0,
            version: 0,
        }
    }

    pub fn enabled(&self) -> (enabled: bool)
        ensures
            enabled == self@.enabled,
    {
        self.enabled
    }

    /// Whether a sync attempt holds the claim.
    pub fn in_progress(&self) -> (in_progress: bool)
        ensures
            in_progress == self@.in_progress,
    {
        self.in_progress
    }

    /// How many cursor overrides the ledger has seen.
    pub fn version(&self) -> (version: Version)
        ensures
            version == self@.version,
    {
        self.version
    }

    pub fn set_enabled(&mut self, enabled: bool)
        ensures
            final(self)@ == (SyncStateView { enabled, ..old(self)@ }),
    {
        self.enabled = enabled;
    }

    /// Claims the next sync attempt. This is the one place where attempts for
    /// a ledger are serialised: the claim succeeds exactly when syncing is
    /// enabled and no attempt is in flight, and a successful claim marks one
    /// as in flight.
    pub fn try_start(&mut self, now: TimestampMillis) -> (result: TryStartSyncResult)
        ensures
            result == old(self)@.claim_result(),
            final(self)@ == old(self)@.claim(now),
    {
        if !self.enabled {
            TryStartSyncResult::Disabled
        } else if !self.in_progress {
            self.in_progress = true;
            self.last_sync_started_at = now;
            TryStartSyncResult::Success(self.next_block_to_sync, self.version)
        } else {
            TryStartSyncResult::AlreadyInProgress
        }
    }

    pub fn mark_sync_complete(&mut self, success: bool, now: TimestampMillis)
        ensures
            final(self)@ == old(self)@.complete(success, now),
    {
        self.in_progress = false;

        if success {
            self.last_successful_sync = now;
        } else {
            self.last_failed_sync = now;
        }
    }

    pub fn next_block_to_sync(&self) -> (block_index: BlockIndex)
        ensures
            block_index == self@.next_block_to_sync,
    {
        self.next_block_to_sync
    }

    /// Writes the cursor, unless `version_check` names a version that an
    /// override has since replaced: such a write is dropped without notice.
    pub fn set_next_block_to_sync(&mut self, block_index: BlockIndex, version_check: Option<Version>)
        ensures
            final(self)@ == old(self)@.advance_cursor(block_index, version_check),
    {
        let applies = match version_check {
            Some(v) => v == self.version,
            None => true,
        };
        if applies {
            self.next_block_to_sync = block_index;
        }
    }

    pub fn last_sync_started_at(&self) -> (at: TimestampMillis)
        ensures
            at == self@.last_sync_started_at,
    {
        self.last_sync_started_at
    }

    pub fn last_successful_sync(&self) -> (at: TimestampMillis)
        ensures
            at == self@.last_successful_sync,
    {
        self.last_successful_sync
    }

    pub fn last_failed_sync(&self) -> (at: TimestampMillis)
        ensures
            at == self@.last_failed_sync,
    {
        self.last_failed_sync
    }

    pub fn incr_version(&mut self)
        requires
            old(self)@.version < u32::MAX,
        ensures
            final(self)@ == old(self)@.bump_version(),
    {
        self.version += 1;
    }
}

/// A ledger that can be synced is claimed by the first attempt and refuses
/// every further attempt until that one has completed: while the claim is
/// held a second claim answers `AlreadyInProgress` and changes nothing, and
/// completing the attempt, with either outcome, releases the claim.
pub proof fn lemma_one_sync_in_flight(
    s: SyncStateView,
    first: TimestampMillis,
    second: TimestampMillis,
    success: bool,
    done: TimestampMillis,
)
    requires
        s.enabled,
        !s.in_progress,
    ensures
        s.claim_result() == TryStartSyncResult::Success(s.next_block_to_sync, s.version),
        s.claim(first).in_progress,
        s.claim(first).claim_result() == TryStartSyncResult::AlreadyInProgress,
        s.claim(first).claim(second) == s.claim(first),
        !s.claim(first).complete(success, done).in_progress,
        s.claim(first).complete(success, done).claimable(),
{
}

/// A cursor override that arrives while a sync is in flight wins: it raises
/// the version above the one the sync was claimed under, so the cursor write
/// and the completion of that sync leave the overriding cursor in place.
pub proof fn lemma_override_survives_stale_sync(
    s: SyncStateView,
    claimed_at: TimestampMillis,
    enabled: Option<bool>,
    cursor_override: BlockIndex,
    synced_cursor: BlockIndex,
    success: bool,
    done: TimestampMillis,
)
    requires
        s.claimable(),
        s.version < u32::MAX,
    ensures
        ({
            let claimed = s.claim(claimed_at);
            let overridden = claimed.reconfigure(enabled, Some(cursor_override));
            let finished = overridden.advance_cursor(synced_cursor, Some(s.version)).complete(
                success,
                done,
            );
            &&& s.claim_result() == TryStartSyncResult::Success(s.next_block_to_sync, s.version)
            &&& overridden.version == s.version + 1
            &&& overridden.next_block_to_sync == cursor_override
            &&& overridden.advance_cursor(synced_cursor, Some(s.version)) == overridden
            &&& finished.next_block_to_sync == cursor_override
            &&& finished.version == s.version + 1
        }),
{
}

/// Without an override in between, the cursor write of the sync that holds
/// the claim takes effect.
pub proof fn lemma_current_version_advances(s: SyncStateView, now: TimestampMillis, cursor: BlockIndex)
    ensures
        s.claim(now).advance_cursor(cursor, Some(s.version)).next_block_to_sync == cursor,
{
}

} // verus!

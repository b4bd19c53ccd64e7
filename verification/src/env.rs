//! What the engine asks of the platform it runs on.

use vstd::prelude::*;
use crate::types::{CanisterId, Cycles, Principal, TimestampMillis};

verus! {

/// How many nanoseconds of the platform's clock make one unit of the
/// engine's timestamps.
pub const NANOS_PER_SECOND: u64 = 1_000_000_000;

/// The engine's timestamp for a reading of the platform's clock.
pub fn timestamp_from_nanos(nanos: u64) -> (timestamp: TimestampMillis)
    ensures
        timestamp == nanos / NANOS_PER_SECOND,
{
    nanos / NANOS_PER_SECOND
}

/// The hosting environment. Nothing is promised of what it answers: two
/// readings of the clock may differ, and the caller changes from one message
/// to the next. Whatever the engine does with an answer it does for every
/// possible answer.
pub trait Environment {
    fn now(&self) -> TimestampMillis;

    fn caller(&self) -> Principal;

    fn canister_id(&self) -> CanisterId;

    fn cycles_balance(&self) -> Cycles;
}

} // verus!

//! Plain-data identifiers and scalar aliases shared by every module.

use vstd::prelude::*;

verus! {

/// Milliseconds as reported by the hosting environment's clock.
pub type TimestampMillis = u64;

/// Amount of cycles held by a canister.
pub type Cycles = u128;

/// Identifier of a remote service: at most 29 significant bytes, stored the
/// way the wire format stores them, that is a length and a zero-padded buffer.
///
/// The engine never looks inside an identifier; it only stores, compares and
/// hands identifiers back.
#[derive(Clone, Copy, Debug, PartialEq, Eq, Hash)]
pub struct Principal {
    pub len: u8,
    pub bytes: [u8; 29],
}

/// Identifier of a canister (a ledger, an archive shard or a subscriber).
pub type CanisterId = Principal;

impl Principal {
    /// Decides whether two identifiers are the same value.
    pub fn same(&self, other: &Principal) -> (r: bool)
        ensures
            r == (*self == *other),
    {
        if self.len != other.len {
            return false;
        }
        let mut i: usize = 0;
        while i < 29
            invariant
                i <= 29,
                forall|j: int| 0 <= j < i ==> self.bytes[j] == other.bytes[j],
            decreases 29 - i,
        {
            if self.bytes[i] != other.bytes[i] {
                return false;
            }
            i += 1;
        }
        assert(self.bytes =~= other.bytes);
        true
    }
}

/// Release number of the deployed code, reported by the metrics snapshot.
#[derive(Clone, Copy, Debug, PartialEq, Eq, Hash)]
pub struct Version {
    pub major: u32,
    pub minor: u32,
    pub patch: u32,
}

/// Why the hosting platform rejected an outgoing call.
#[derive(Clone, Copy, Debug, PartialEq, Eq, Hash)]
pub enum RejectionCode {
    NoError,
    SysFatal,
    SysTransient,
    DestinationInvalid,
    CanisterReject,
    CanisterError,
    Unknown,
}

/// A failed remote call: the platform's rejection code and its message.
#[derive(Clone, Debug, PartialEq, Eq)]
pub struct CallError {
    pub code: RejectionCode,
    pub message: String,
}

/// Outcome of a remote call.
pub type CallResult<R> = Result<R, CallError>;

} // verus!

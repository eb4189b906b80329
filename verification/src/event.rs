//! The events of a lease stream.

use vstd::prelude::*;

verus! {

/// A single record from a lease event stream.
#[derive(Debug, Clone, PartialEq, Eq)]
pub struct Event {
    /// Globally increasing event sequence number.
    pub seq: u64,
    /// Event time in Unix milliseconds (or any consistently monotonic millisecond clock).
    pub at_ms: u64,
    /// Logical resource protected by the lease.
    pub resource: String,
    /// Lease transition or protected action.
    pub kind: EventKind,
}

/// Supported lease transitions and protected actions.
#[derive(Debug, Clone, PartialEq, Eq)]
pub enum EventKind {
    /// Install a new owner with a strictly increasing fencing epoch.
    Grant { owner: String, epoch: u64, lease_until_ms: u64 },
    /// Extend the current owner's deadline without changing its epoch.
    Renew { owner: String, epoch: u64, lease_until_ms: u64 },
    /// Revoke the current owner and epoch.
    Revoke { owner: String, epoch: u64 },
    /// Record an operation that required a valid lease.
    Action { owner: String, epoch: u64, operation: String },
}

} // verus!

use vstd::prelude::*;
use std::marker::PhantomData;

verus! {

/// A unique identifier for a lease.
#[derive(Debug, Clone, Copy, PartialEq, Eq, Structural, PartialOrd, Ord)]
pub struct LeaseId(pub u128);

/// A per-resource counter, advanced by every successful lease grant.
#[derive(Debug, Clone, Copy, PartialEq, Eq, Structural, PartialOrd, Ord)]
pub struct Epoch(pub u64);

/// Why a lease could not be granted.
#[derive(Debug, Clone, Copy, PartialEq, Eq, Structural)]
pub enum LeaseError {
    /// The resource is already under a foreign lease.
    AlreadyLeased,
    /// The resource is locked by a policy of the caller.
    ResourceLocked,
    /// The lease identifiers or the epochs of the resource are exhausted.
    SystemFailure,
}

/// An owned source of lease identifiers: a counter that never hands out the same value twice.
#[derive(Debug, Clone, Copy, PartialEq, Eq, Structural)]
pub struct LeaseIdGenerator {
    /// The identifier that the next call of `next_id` hands out.
    pub next: u128,
}

impl LeaseIdGenerator {
    /// A generator whose first identifier is 0.
    pub fn new() -> (r: LeaseIdGenerator)
        ensures
            r.next == 0,
    {
        LeaseIdGenerator { next: 0 }
    }

    /// A generator whose first identifier is `first`.
    pub fn starting_at(first: u128) -> (r: LeaseIdGenerator)
        ensures
            r.next == first,
    {
        LeaseIdGenerator { next: first }
    }

    /// Hands out the next identifier, or `None` once the counter is exhausted.
    pub fn next_id(&mut self) -> (r: Option<LeaseId>)
        ensures
            old(self).next < u128::MAX ==> r == Some(LeaseId(old(self).next))
                && final(self).next == old(self).next + 1,
            old(self).next == u128::MAX ==> r.is_none() && *final(self) == *old(self),
    {
        if self.next == u128::MAX {
            None
        } else {
            let id = LeaseId(self.next);
            self.next = self.next + 1;
            Some(id)
        }
    }
}

/// A capability token for a granted lease: who holds it, under which identifier, for how long.
/// It does not own the resource.
#[derive(Debug)]
pub struct Lease<T> {
    pub lease_id: u128,
    pub holder: u128,
    /// The granted duration, in milliseconds.
    pub duration_ms: u64,
    pub _marker: PhantomData<T>,
}

/// A resource that can be leased to a remote peer.
pub trait DistributedBorrow {
    type Target;

    /// Attempts to lease the resource to `peer_id` for `duration_ms` milliseconds, the clock
    /// reading `now`.
    fn try_hire(&mut self, peer_id: u128, duration_ms: u64, now: u64) -> (r: Result<
        Lease<Self::Target>,
        LeaseError,
    >);
}

} // verus!

use vstd::prelude::*;
use std::marker::PhantomData;
use crate::lease::{DistributedBorrow, Epoch, Lease, LeaseError, LeaseId, LeaseIdGenerator};

verus! {

/// Who controls a guarded resource.
#[derive(Debug, Clone, Copy, PartialEq, Eq, Structural)]
pub enum Jurisdiction {
    /// No active lease: local access is permitted.
    Domestic,
    /// An exclusive lease held by `holder` until `expires_at` (milliseconds on the guard's clock).
    Foreign { holder: u128, lease_id: LeaseId, epoch: Epoch, expires_at: u64 },
}

/// Why local access to a guarded value was refused.
#[derive(Debug, Clone, Copy, PartialEq, Eq, Structural)]
pub enum SovereigntyError {
    /// The resource is validly leased to `holder` until `expires_at`.
    SovereigntyViolation { holder: u128, expires_at: u64 },
    /// The lease of `holder` has expired, but the resource has not been reclaimed.
    LeaseExpiredUnreclaimed { holder: u128 },
}

/// Why a resource could not be reclaimed.
#[derive(Debug, Clone, Copy, PartialEq, Eq, Structural)]
pub enum ReclaimError {
    /// The current lease has not expired yet.
    NotYetExpired,
}

/// The metadata of a guard: its jurisdiction, the epoch of its latest grant (0 before the
/// first), and the source of its lease identifiers.
#[derive(Debug, Clone, Copy, PartialEq, Eq, Structural)]
pub struct Ledger {
    pub jurisdiction: Jurisdiction,
    pub epoch: u64,
    pub ids: LeaseIdGenerator,
}

/// The ledger of a new guard whose lease identifiers come from `ids`.
pub open spec fn initial_ledger(ids: LeaseIdGenerator) -> Ledger {
    Ledger { jurisdiction: Jurisdiction::Domestic, epoch: 0, ids }
}

/// The instant at which a lease granted at `now` for `duration` ends (saturating).
pub open spec fn expiry(now: u64, duration: u64) -> u64 {
    if now + duration > u64::MAX {
        u64::MAX
    } else {
        (now + duration) as u64
    }
}

/// The outcome of a local read or write attempt at `now`.
pub open spec fn access_outcome(j: Jurisdiction, now: u64) -> Result<(), SovereigntyError> {
    match j {
        Jurisdiction::Domestic => Ok(()),
        Jurisdiction::Foreign { holder, expires_at, .. } => if now < expires_at {
            Err(SovereigntyError::SovereigntyViolation { holder, expires_at })
        } else {
            Err(SovereigntyError::LeaseExpiredUnreclaimed { holder })
        },
    }
}

/// The outcome of a reclaim attempt at `now`.
pub open spec fn reclaim_outcome(j: Jurisdiction, now: u64) -> Result<(), ReclaimError> {
    match j {
        Jurisdiction::Domestic => Ok(()),
        Jurisdiction::Foreign { expires_at, .. } => if now >= expires_at {
            Ok(())
        } else {
            Err(ReclaimError::NotYetExpired)
        },
    }
}

/// The ledger after a reclaim attempt at `now`.
pub open spec fn after_reclaim(l: Ledger, now: u64) -> Ledger {
    if reclaim_outcome(l.jurisdiction, now) is Ok {
        Ledger { jurisdiction: Jurisdiction::Domestic, ..l }
    } else {
        l
    }
}

/// The outcome of a lease grant to `holder` for `duration` at `now`.
pub open spec fn grant_outcome(l: Ledger, holder: u128, duration: u64, now: u64) -> Result<
    (LeaseId, Epoch),
    LeaseError,
> {
    match l.jurisdiction {
        Jurisdiction::Foreign { .. } => Err(LeaseError::AlreadyLeased),
        Jurisdiction::Domestic => if l.epoch == u64::MAX || l.ids.next == u128::MAX {
            Err(LeaseError::SystemFailure)
        } else {
            Ok((LeaseId(l.ids.next), Epoch((l.epoch + 1) as u64)))
        },
    }
}

/// The ledger after a lease grant to `holder` for `duration` at `now`.
pub open spec fn after_grant(l: Ledger, holder: u128, duration: u64, now: u64) -> Ledger {
    match grant_outcome(l, holder, duration, now) {
        Ok((lease_id, epoch)) => Ledger {
            jurisdiction: Jurisdiction::Foreign {
                holder,
                lease_id,
                epoch,
                expires_at: expiry(now, duration),
            },
            epoch: epoch.0,
            ids: LeaseIdGenerator { next: (l.ids.next + 1) as u128 },
        },
        Err(_) => l,
    }
}

/// A value under a jurisdiction: local access is granted only while no lease is in force.
///
/// Transitions take `&mut self`, so a reference handed out by `read` or `write` cannot
/// outlive the jurisdiction check that granted it. A lease is never released by dropping the
/// guard: it must expire and be reclaimed.
pub struct Sovereign<T> {
    inner: T,
    ledger: Ledger,
}

impl<T> Sovereign<T> {
    /// The guarded value.
    pub closed spec fn value(&self) -> T {
        self.inner
    }

    /// The guard's metadata.
    pub closed spec fn ledger(&self) -> Ledger {
        self.ledger
    }

    /// Creates a guard under domestic jurisdiction, whose lease identifiers start at 0.
    pub fn new(value: T) -> (r: Sovereign<T>)
        ensures
            r.value() == value,
            r.ledger() == initial_ledger(LeaseIdGenerator { next: 0 }),
    {
        Sovereign { inner: value, ledger: Ledger {
            jurisdiction: Jurisdiction::Domestic,
            epoch: 0,
            ids: LeaseIdGenerator::new(),
        } }
    }

    /// Creates a guard under domestic jurisdiction that takes its lease identifiers from `ids`.
    pub fn with_lease_ids(value: T, ids: LeaseIdGenerator) -> (r: Sovereign<T>)
        ensures
            r.value() == value,
            r.ledger() == initial_ledger(ids),
    {
        Sovereign { inner: value, ledger: Ledger { jurisdiction: Jurisdiction::Domestic, epoch: 0, ids } }
    }

    /// A snapshot of the current jurisdiction.
    pub fn jurisdiction(&self) -> (r: Jurisdiction)
        ensures
            r == self.ledger().jurisdiction,
    {
        self.ledger.jurisdiction
    }

    /// A snapshot of the whole metadata.
    pub fn snapshot(&self) -> (r: Ledger)
        ensures
            r == self.ledger(),
    {
        self.ledger
    }

    /// The epoch of the latest grant (0 before the first).
    pub fn current_epoch(&self) -> (r: Epoch)
        ensures
            r == Epoch(self.ledger().epoch),
    {
        Epoch(self.ledger.epoch)
    }

    /// Whether no lease is recorded.
    pub fn is_domestic(&self) -> (r: bool)
        ensures
            r == (self.ledger().jurisdiction is Domestic),
    {
        match self.ledger.jurisdiction {
            Jurisdiction::Domestic => true,
            Jurisdiction::Foreign { .. } => false,
        }
    }

    /// Whether a lease is recorded, expired or not.
    pub fn is_exiled(&self) -> (r: bool)
        ensures
            r == (self.ledger().jurisdiction is Foreign),
    {
        !self.is_domestic()
    }

    /// Checks that local access is permitted at `now`.
    pub fn ensure_domestic(&self, now: u64) -> (r: Result<(), SovereigntyError>)
        ensures
            r == access_outcome(self.ledger().jurisdiction, now),
    {
        match self.ledger.jurisdiction {
            Jurisdiction::Domestic => Ok(()),
            Jurisdiction::Foreign { holder, expires_at, .. } => {
                if now < expires_at {
                    Err(SovereigntyError::SovereigntyViolation { holder, expires_at })
                } else {
                    Err(SovereigntyError::LeaseExpiredUnreclaimed { holder })
                }
            },
        }
    }

    /// Shared access to the value at `now`, granted iff the jurisdiction is domestic.
    pub fn read(&self, now: u64) -> (r: Result<&T, SovereigntyError>)
        ensures
            match r {
                Ok(v) => access_outcome(self.ledger().jurisdiction, now) is Ok && *v == self.value(),
                Err(e) => access_outcome(self.ledger().jurisdiction, now) == Err::<(), _>(e),
            },
    {
        match self.ensure_domestic(now) {
            Ok(()) => Ok(&self.inner),
            Err(e) => Err(e),
        }
    }

    /// Exclusive access to the value at `now`, granted iff the jurisdiction is domestic.
    pub fn write(&mut self, now: u64) -> (r: Result<&mut T, SovereigntyError>)
        ensures
            final(self).ledger() == old(self).ledger(),
            match r {
                Ok(v) => access_outcome(old(self).ledger().jurisdiction, now) is Ok
                    && *v == old(self).value() && final(self).value() == *final(v),
                Err(e) => access_outcome(old(self).ledger().jurisdiction, now) == Err::<(), _>(e)
                    && final(self).value() == old(self).value(),
            },
    {
        match self.ensure_domestic(now) {
            Ok(()) => Ok(&mut self.inner),
            Err(e) => Err(e),
        }
    }

    /// Returns the resource to domestic jurisdiction if its lease has expired at `now`; a no-op
    /// on a domestic guard.
    pub fn reclaim(&mut self, now: u64) -> (r: Result<(), ReclaimError>)
        ensures
            r == reclaim_outcome(old(self).ledger().jurisdiction, now),
            final(self).ledger() == after_reclaim(old(self).ledger(), now),
            final(self).value() == old(self).value(),
    {
        match self.ledger.jurisdiction {
            Jurisdiction::Domestic => Ok(()),
            Jurisdiction::Foreign { expires_at, .. } => {
                if now >= expires_at {
                    self.ledger.jurisdiction = Jurisdiction::Domestic;
                    Ok(())
                } else {
                    Err(ReclaimError::NotYetExpired)
                }
            },
        }
    }

    /// Leases the resource to `peer` for `duration_ms` milliseconds from `now`, with a fresh
    /// lease identifier and the next epoch.
    pub fn grant_lease(&mut self, peer: u128, duration_ms: u64, now: u64) -> (r: Result<
        (LeaseId, Epoch),
        LeaseError,
    >)
        ensures
            r == grant_outcome(old(self).ledger(), peer, duration_ms, now),
            final(self).ledger() == after_grant(old(self).ledger(), peer, duration_ms, now),
            final(self).value() == old(self).value(),
    {
        match self.ledger.jurisdiction {
            Jurisdiction::Foreign { .. } => Err(LeaseError::AlreadyLeased),
            Jurisdiction::Domestic => {
                if self.ledger.epoch == u64::MAX || self.ledger.ids.next == u128::MAX {
                    return Err(LeaseError::SystemFailure);
                }
                let lease_id = match self.ledger.ids.next_id() {
                    Some(id) => id,
                    None => return Err(LeaseError::SystemFailure),
                };
                let epoch = Epoch(self.ledger.epoch + 1);
                let expires_at = now.saturating_add(duration_ms);
                self.ledger.jurisdiction = Jurisdiction::Foreign {
                    holder: peer,
                    lease_id,
                    epoch,
                    expires_at,
                };
                self.ledger.epoch = epoch.0;
                Ok((lease_id, epoch))
            },
        }
    }
}

impl<T> DistributedBorrow for Sovereign<T> {
    type Target = T;

    fn try_hire(&mut self, peer_id: u128, duration_ms: u64, now: u64) -> (r: Result<
        Lease<T>,
        LeaseError,
    >)
        ensures
            final(self).ledger() == after_grant(old(self).ledger(), peer_id, duration_ms, now),
            final(self).value() == old(self).value(),
            match grant_outcome(old(self).ledger(), peer_id, duration_ms, now) {
                Ok((id, _)) => r == Ok::<Lease<T>, LeaseError>(
                    Lease { lease_id: id.0, holder: peer_id, duration_ms, _marker: PhantomData },
                ),
                Err(e) => r == Err::<Lease<T>, LeaseError>(e),
            },
    {
        match self.grant_lease(peer_id, duration_ms, now) {
            Ok((lease_id, _epoch)) => Ok(
                Lease { lease_id: lease_id.0, holder: peer_id, duration_ms, _marker: PhantomData },
            ),
            Err(e) => Err(e),
        }
    }
}

/// The ledger after reclaim attempts at each instant of `times`, in order.
pub open spec fn after_reclaims(l: Ledger, times: Seq<u64>) -> Ledger
    decreases times.len(),
{
    if times.len() == 0 {
        l
    } else {
        after_reclaims(after_reclaim(l, times[0]), times.drop_first())
    }
}

/// A new guard grants local access at any instant.
pub proof fn law_new_guard_is_accessible(ids: LeaseIdGenerator, now: u64)
    ensures
        access_outcome(initial_ledger(ids).jurisdiction, now) == Ok::<(), SovereigntyError>(()),
{
}

/// After a successful grant, local access is refused at every instant until a reclaim
/// succeeds; before the lease ends the refusal is a sovereignty violation naming the holder,
/// and reclaiming then changes nothing.
pub proof fn law_lease_refuses_access(l: Ledger, holder: u128, duration: u64, granted_at: u64, now: u64)
    requires
        grant_outcome(l, holder, duration, granted_at) is Ok,
        granted_at + duration <= u64::MAX,
    ensures
        access_outcome(after_grant(l, holder, duration, granted_at).jurisdiction, now) is Err,
        now < granted_at + duration ==> access_outcome(
            after_grant(l, holder, duration, granted_at).jurisdiction,
            now,
        ) == Err::<(), SovereigntyError>(
            SovereigntyError::SovereigntyViolation {
                holder,
                expires_at: (granted_at + duration) as u64,
            },
        ),
        now < granted_at + duration ==> after_reclaim(after_grant(l, holder, duration, granted_at), now)
            == after_grant(l, holder, duration, granted_at),
{
}

/// Reclaiming a leased resource before its lease ends fails with `NotYetExpired` and changes
/// nothing; from the end of the lease on it succeeds, and local access is then granted at
/// every instant.
pub proof fn law_reclaim_after_expiry(l: Ledger, now: u64, later: u64)
    requires
        l.jurisdiction is Foreign,
    ensures
        now < l.jurisdiction->expires_at ==> reclaim_outcome(l.jurisdiction, now) == Err::<
            (),
            ReclaimError,
        >(ReclaimError::NotYetExpired) && after_reclaim(l, now) == l,
        now >= l.jurisdiction->expires_at ==> reclaim_outcome(l.jurisdiction, now) is Ok
            && access_outcome(after_reclaim(l, now).jurisdiction, later) is Ok,
{
}

/// Granting a lease on a leased resource fails with `AlreadyLeased` and leaves the ledger as
/// it was.
pub proof fn law_no_lease_stacking(l: Ledger, holder: u128, duration: u64, now: u64)
    requires
        l.jurisdiction is Foreign,
    ensures
        grant_outcome(l, holder, duration, now) == Err::<(LeaseId, Epoch), LeaseError>(
            LeaseError::AlreadyLeased,
        ),
        after_grant(l, holder, duration, now) == l,
{
}

/// Reclaim attempts never change the epoch.
pub proof fn lemma_reclaims_keep_epoch(l: Ledger, times: Seq<u64>)
    ensures
        after_reclaims(l, times).epoch == l.epoch,
        after_reclaims(l, times).ids == l.ids,
    decreases times.len(),
{
    if times.len() > 0 {
        lemma_reclaims_keep_epoch(after_reclaim(l, times[0]), times.drop_first());
    }
}

/// The first grant on a new guard has epoch 1, and of two successive successful grants on one
/// guard, with any reclaim attempts between them, the second has the epoch of the first plus
/// one and a different lease identifier.
pub proof fn law_epoch_increases(
    l: Ledger,
    first: (u128, u64, u64),
    reclaims: Seq<u64>,
    second: (u128, u64, u64),
)
    requires
        grant_outcome(l, first.0, first.1, first.2) is Ok,
        grant_outcome(
            after_reclaims(after_grant(l, first.0, first.1, first.2), reclaims),
            second.0,
            second.1,
            second.2,
        ) is Ok,
    ensures
        l == initial_ledger(l.ids) ==> grant_outcome(l, first.0, first.1, first.2)->Ok_0.1 == Epoch(1),
        grant_outcome(
            after_reclaims(after_grant(l, first.0, first.1, first.2), reclaims),
            second.0,
            second.1,
            second.2,
        )->Ok_0.1.0 == grant_outcome(l, first.0, first.1, first.2)->Ok_0.1.0 + 1,
        grant_outcome(
            after_reclaims(after_grant(l, first.0, first.1, first.2), reclaims),
            second.0,
            second.1,
            second.2,
        )->Ok_0.0 != grant_outcome(l, first.0, first.1, first.2)->Ok_0.0,
{
    lemma_reclaims_keep_epoch(after_grant(l, first.0, first.1, first.2), reclaims);
}

/// Reclaiming a domestic guard succeeds and changes nothing, however often it is repeated.
pub proof fn law_reclaim_domestic_is_noop(l: Ledger, first: u64, second: u64)
    requires
        l.jurisdiction is Domestic,
    ensures
        reclaim_outcome(l.jurisdiction, first) is Ok,
        after_reclaim(l, first) == l,
        reclaim_outcome(after_reclaim(l, first).jurisdiction, second) is Ok,
        after_reclaim(after_reclaim(l, first), second) == l,
{
}

} // verus!

use vstd::prelude::*;
use crate::lease::{Epoch, LeaseError, LeaseId};
use crate::sovereign::{after_grant, after_reclaim, grant_outcome, reclaim_outcome, ReclaimError, Sovereign};

verus! {

/// A guarded string for callers in other languages, which read it by copy.
pub struct SovereignString {
    inner: Sovereign<String>,
}

/// What a copy of an exiled string reads.
pub open spec fn exiled_marker() -> Seq<char> {
    "<Exiled>"@
}

impl SovereignString {
    /// The guard that holds the string.
    pub closed spec fn guard(&self) -> Sovereign<String> {
        self.inner
    }

    pub fn new(value: String) -> (r: SovereignString)
        ensures
            r.guard().value() == value,
            r.guard().ledger().jurisdiction is Domestic,
    {
        SovereignString { inner: Sovereign::new(value) }
    }

    /// A copy of the string, or `<Exiled>` while a lease is recorded.
    pub fn get_value(&self) -> (r: String)
        ensures
            r@ == if self.guard().ledger().jurisdiction is Foreign {
                exiled_marker()
            } else {
                self.guard().value()@
            },
    {
        if self.inner.is_exiled() {
            return "<Exiled>".to_owned();
        }
        match self.inner.read(0) {
            Ok(v) => v.clone(),
            Err(_) => "<Exiled>".to_owned(),
        }
    }

    /// Whether a lease is recorded.
    pub fn is_exiled(&self) -> (r: bool)
        ensures
            r == (self.guard().ledger().jurisdiction is Foreign),
    {
        self.inner.is_exiled()
    }

    /// Whether no lease is recorded.
    pub fn is_domestic(&self) -> (r: bool)
        ensures
            r == (self.guard().ledger().jurisdiction is Domestic),
    {
        self.inner.is_domestic()
    }

    /// Leases the string to `peer` for `duration_ms` milliseconds from `now`.
    pub fn grant_lease(&mut self, peer: u128, duration_ms: u64, now: u64) -> (r: Result<
        (LeaseId, Epoch),
        LeaseError,
    >)
        ensures
            r == grant_outcome(old(self).guard().ledger(), peer, duration_ms, now),
            final(self).guard().ledger() == after_grant(old(self).guard().ledger(), peer, duration_ms, now),
            final(self).guard().value() == old(self).guard().value(),
    {
        self.inner.grant_lease(peer, duration_ms, now)
    }

    /// Returns the string to domestic jurisdiction if its lease has expired at `now`.
    pub fn reclaim(&mut self, now: u64) -> (r: Result<(), ReclaimError>)
        ensures
            r == reclaim_outcome(old(self).guard().ledger().jurisdiction, now),
            final(self).guard().ledger() == after_reclaim(old(self).guard().ledger(), now),
            final(self).guard().value() == old(self).guard().value(),
    {
        self.inner.reclaim(now)
    }
}

} // verus!

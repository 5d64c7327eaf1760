//! Transport identity policy: shared versus isolated egress identities.
//!
//! The proxy forwards over an anonymity-preserving transport. Under the
//! shared policy every request rides the one process-wide identity; under
//! the isolated policy each request demands a fresh identity of its own,
//! acquired for exactly one forwarding attempt and discarded afterwards.
//! The caller performs the actual acquisition; this module fixes the
//! decision and the freshness accounting so that an isolated request can
//! never be handed an identity some other request already holds.

use vstd::prelude::*;

verus! {

/// The configured egress-identity policy.
#[derive(Clone, Copy, Debug, PartialEq, Eq, Structural)]
pub enum TransportPolicy {
    /// One process-wide identity, reused by every request.
    Shared,
    /// A fresh identity per request.
    Isolated,
}

/// What the policy dictates for one request.
#[derive(Clone, Copy, Debug, PartialEq, Eq, Structural)]
pub enum IdentityPlan {
    UseShared,
    UseFresh,
}

pub open spec fn plan_spec(p: TransportPolicy) -> IdentityPlan {
    match p {
        TransportPolicy::Shared => IdentityPlan::UseShared,
        TransportPolicy::Isolated => IdentityPlan::UseFresh,
    }
}

/// The isolated policy always demands a fresh identity; it is never
/// silently downgraded to the shared one.
pub fn plan_identity(p: TransportPolicy) -> (r: IdentityPlan)
    ensures
        r == plan_spec(p),
        p is Isolated <==> r is UseFresh,
{
    match p {
        TransportPolicy::Shared => IdentityPlan::UseShared,
        TransportPolicy::Isolated => IdentityPlan::UseFresh,
    }
}

/// Hands out process-unique identity numbers; the number stands for one
/// egress identity of the underlying transport.
#[derive(Debug)]
pub struct IdentityAllocator {
    pub next: u64,
}

/// What one acquisition yields: the identity handed out and the
/// allocator's state afterwards.
pub open spec fn acquire_spec(a: IdentityAllocator) -> (u64, IdentityAllocator) {
    (a.next, IdentityAllocator { next: (a.next + 1) as u64 })
}

impl IdentityAllocator {
    pub fn new() -> (a: IdentityAllocator)
        ensures
            a.next == 0,
    {
        IdentityAllocator { next: 0 }
    }

    /// Acquire a fresh identity: it is distinct from every identity this
    /// allocator handed out before, and from every one it will hand out
    /// later.
    pub fn acquire(&mut self) -> (id: u64)
        requires
            old(self).next < u64::MAX,
        ensures
            id == old(self).next,
            final(self).next == old(self).next + 1,
            (id, *final(self)) == acquire_spec(*old(self)),
    {
        let id = self.next;
        self.next = self.next + 1;
        id
    }
}

/// Isolated requests never share an identity: two acquisitions, in
/// whichever order concurrent requests reach the allocator, yield
/// distinct identities.
pub proof fn lemma_isolated_identities_distinct(a: IdentityAllocator)
    requires
        a.next < u64::MAX,
    ensures
        ({
            let (id1, a1) = acquire_spec(a);
            let (id2, _) = acquire_spec(a1);
            id1 != id2
        }),
{
}

/// A fresh identity is new: it differs from every identity the allocator
/// handed out in an earlier state.
pub proof fn lemma_fresh_identity_is_new(a: IdentityAllocator, k: u64)
    requires
        k < a.next,
    ensures
        acquire_spec(a).0 != k,
{
}

} // verus!

use rpc_gate::transport::IdentityAllocator;
use rpc_gate::transport::IdentityPlan;
use rpc_gate::transport::TransportPolicy;
use rpc_gate::transport::plan_identity;

#[test]
fn isolated_policy_always_plans_a_fresh_identity() {
    assert!(matches!(plan_identity(TransportPolicy::Isolated), IdentityPlan::UseFresh));
    assert!(matches!(plan_identity(TransportPolicy::Shared), IdentityPlan::UseShared));
}

#[test]
fn two_concurrent_isolated_requests_never_share_an_identity() {
    // a test-double transport records the identity handle of each call;
    // two in-flight requests acquire in whatever order they reach the
    // allocator
    let mut alloc = IdentityAllocator::new();
    let mut recorded: Vec<u64> = Vec::new();
    recorded.push(alloc.acquire());
    recorded.push(alloc.acquire());
    assert_ne!(recorded[0], recorded[1]);
}

#[test]
fn identities_stay_pairwise_distinct_over_many_requests() {
    let mut alloc = IdentityAllocator::new();
    let mut recorded: Vec<u64> = Vec::new();
    for _ in 0..16 {
        recorded.push(alloc.acquire());
    }
    for a in 0..recorded.len() {
        for b in (a + 1)..recorded.len() {
            assert_ne!(recorded[a], recorded[b]);
        }
    }
}

use rpc_gate::pattern::AllowRule;
use rpc_gate::pattern::Allowlist;

fn listed(patterns: &[&[u8]]) -> Allowlist {
    let mut rules = Vec::new();
    for p in patterns {
        rules.push(AllowRule::new(p.to_vec()));
    }
    Allowlist::new(rules)
}

#[test]
fn admits_full_match_of_provider_pattern() {
    let al = listed(&[b"*.providerA.example/*"]);
    assert!(al.admits(b"rpc.providerA.example/v2/key123"));
    assert!(al.admits(b"x.providerA.example/"));
}

#[test]
fn rejects_target_matching_no_rule() {
    let al = listed(&[b"*.providerA.example/*", b"*.providerB.example/v3/*"]);
    assert!(!al.admits(b"evil.example/v2/key123"));
    assert!(!al.admits(b""));
}

#[test]
fn embedded_allowed_segment_does_not_admit() {
    let al = listed(&[b"*.providerA.example/*"]);
    // the allowed-looking fragment sits inside a hostile host: the leading
    // `*` would have to swallow a `/`, which it never does
    assert!(!al.admits(b"attacker.example/providerA.example/v3/x"));
    assert!(!al.admits(b"evil.com/some.providerA.example/"));
}

#[test]
fn suffix_alone_does_not_admit() {
    let al = listed(&[b"*.providerA.example/*"]);
    // no dot-separated label before the literal part
    assert!(!al.admits(b"providerA.example/v2/x"));
    // the literal tail must be present in full
    assert!(!al.admits(b"rpc.providerA.example"));
}

#[test]
fn trailing_star_spans_path_segments() {
    let al = listed(&[b"*.providerB.example/v3/*"]);
    assert!(al.admits(b"node.providerB.example/v3/a/b/c"));
    assert!(!al.admits(b"node.providerB.example/v2/a"));
}

#[test]
fn inner_star_never_crosses_a_slash() {
    let al = listed(&[b"*.allowed.host.com/*"]);
    assert!(!al.admits(b"evil.com/some.allowed.host.com/"));
    assert!(al.admits(b"some.allowed.host.com/"));
}

#[test]
fn literal_rule_matches_only_itself() {
    let al = listed(&[b"fixed.example/v1"]);
    assert!(al.admits(b"fixed.example/v1"));
    assert!(!al.admits(b"fixed.example/v12"));
    assert!(!al.admits(b"a.fixed.example/v1"));
}

#[test]
fn any_rule_of_the_set_admits() {
    let al = listed(&[b"*.providerA.example/*", b"*.providerB.example/v3/*"]);
    assert!(al.admits(b"n.providerB.example/v3/k"));
    assert!(al.admits(b"n.providerA.example/k"));
}

//! Allowlist matching: which upstream targets may be forwarded to.
//!
//! A rule is a byte pattern over the raw, caller-controlled target string
//! (host plus path suffix, e.g. `rpc.providerA.example/v2/key`). A `*` that
//! ends a pattern stands for any run of bytes; a `*` anywhere else stands
//! for any run of bytes that contains no `/`. Matching always covers the
//! entire target, so an allowed-looking fragment buried inside a hostile
//! target (`evil.example/x.allowed.example/`) never admits.

use vstd::prelude::*;

verus! {

/// Does pattern `p` from index `pi` match all of target `t` from index `ti`?
///
/// A trailing `*` matches the whole rest of the target; any other `*`
/// matches a (possibly empty) run of bytes without `/` (47); every other
/// pattern byte matches only itself.
pub open spec fn glob_match_at(p: Seq<u8>, t: Seq<u8>, pi: int, ti: int) -> bool
    decreases p.len() - pi, t.len() - ti,
{
    if pi < 0 || ti < 0 || pi > p.len() || ti > t.len() {
        false
    } else if pi == p.len() {
        ti == t.len()
    } else if p[pi] == 42 {
        if pi == p.len() - 1 {
            true
        } else {
            glob_match_at(p, t, pi + 1, ti)
                || (ti < t.len() && t[ti] != 47 && glob_match_at(p, t, pi, ti + 1))
        }
    } else {
        ti < t.len() && t[ti] == p[pi] && glob_match_at(p, t, pi + 1, ti + 1)
    }
}

/// Does pattern `p` match the entire target `t`?
pub open spec fn glob_match(p: Seq<u8>, t: Seq<u8>) -> bool {
    glob_match_at(p, t, 0, 0)
}

proof fn lemma_literal_tail_match(p: Seq<u8>, t: Seq<u8>, pi: int, ti: int)
    requires
        0 <= pi <= p.len(),
        0 <= ti <= t.len(),
        forall|k: int| pi <= k < p.len() ==> p[k] != 42,
    ensures
        glob_match_at(p, t, pi, ti) <==> p.subrange(pi, p.len() as int) == t.subrange(
            ti,
            t.len() as int,
        ),
    decreases p.len() - pi,
{
    let ps = p.subrange(pi, p.len() as int);
    let ts = t.subrange(ti, t.len() as int);
    if pi == p.len() {
        if ti == t.len() {
            assert(ps =~= ts);
        } else {
            assert(ps.len() != ts.len());
        }
    } else if ti < t.len() && t[ti] == p[pi] {
        lemma_literal_tail_match(p, t, pi + 1, ti + 1);
        let ps1 = p.subrange(pi + 1, p.len() as int);
        let ts1 = t.subrange(ti + 1, t.len() as int);
        if glob_match_at(p, t, pi, ti) {
            assert(ps1 == ts1);
            assert forall|k: int| 0 <= k < ps.len() implies ps[k] == ts[k] by {
                if k > 0 {
                    assert(ps1[k - 1] == ts1[k - 1]);
                }
            }
            assert(ps =~= ts);
        }
        if ps == ts {
            assert forall|k: int| 0 <= k < ps1.len() implies ps1[k] == ts1[k] by {
                assert(ps[k + 1] == ts[k + 1]);
            }
            assert(ps1 =~= ts1);
        }
    } else if ti == t.len() {
        assert(ps.len() != ts.len());
    } else {
        assert(ps != ts) by {
            if ps == ts {
                assert(ps[0] == ts[0]);
            }
        }
    }
}

/// A pattern without a wildcard admits exactly its own text: no proper
/// substring, suffix or extension of it is ever admitted.
pub proof fn lemma_literal_pattern_exact(p: Seq<u8>, t: Seq<u8>)
    requires
        forall|k: int| 0 <= k < p.len() ==> p[k] != 42,
    ensures
        glob_match(p, t) <==> p == t,
{
    lemma_literal_tail_match(p, t, 0, 0);
    assert(p.subrange(0, p.len() as int) =~= p);
    assert(t.subrange(0, t.len() as int) =~= t);
}

fn glob_step(p: &[u8], t: &[u8], pi: usize, ti: usize) -> (r: bool)
    requires
        pi <= p.len(),
        ti <= t.len(),
    ensures
        r == glob_match_at(p@, t@, pi as int, ti as int),
    decreases p.len() - pi, t.len() - ti,
{
    if pi == p.len() {
        ti == t.len()
    } else if p[pi] == 42 {
        if pi + 1 == p.len() {
            true
        } else if glob_step(p, t, pi + 1, ti) {
            true
        } else if ti < t.len() && t[ti] != 47 {
            glob_step(p, t, pi, ti + 1)
        } else {
            false
        }
    } else if ti < t.len() && t[ti] == p[pi] {
        glob_step(p, t, pi + 1, ti + 1)
    } else {
        false
    }
}

/// One immutable pattern identifying a permitted upstream.
#[derive(Debug)]
pub struct AllowRule {
    pub pattern: Vec<u8>,
}

impl AllowRule {
    /// The rule admits `t` when its pattern matches all of `t`.
    pub open spec fn spec_matches(&self, t: Seq<u8>) -> bool {
        glob_match(self.pattern@, t)
    }

    pub fn new(pattern: Vec<u8>) -> (r: AllowRule)
        ensures
            r.pattern@ == pattern@,
    {
        AllowRule { pattern }
    }

    pub fn matches(&self, target: &[u8]) -> (r: bool)
        ensures
            r == self.spec_matches(target@),
    {
        glob_step(self.pattern.as_slice(), target, 0, 0)
    }
}

/// The process-wide set of allow rules, fixed at startup.
#[derive(Debug)]
pub struct Allowlist {
    pub rules: Vec<AllowRule>,
}

impl Allowlist {
    /// A target is admitted exactly when some configured rule matches it in
    /// full; evaluation order never affects the outcome.
    pub open spec fn spec_admits(&self, t: Seq<u8>) -> bool {
        exists|i: int| 0 <= i < self.rules@.len() && self.rules@[i].spec_matches(t)
    }

    pub fn new(rules: Vec<AllowRule>) -> (r: Allowlist)
        ensures
            r.rules@ == rules@,
    {
        Allowlist { rules }
    }

    /// Admit `target` iff it fully matches at least one configured rule.
    pub fn admits(&self, target: &[u8]) -> (r: bool)
        ensures
            r == self.spec_admits(target@),
    {
        let mut i: usize = 0;
        while i < self.rules.len()
            invariant
                i <= self.rules.len(),
                forall|k: int| 0 <= k < i ==> !self.rules@[k].spec_matches(target@),
            decreases self.rules.len() - i,
        {
            if self.rules[i].matches(target) {
                return true;
            }
            i = i + 1;
        }
        false
    }
}

} // verus!

//! The per-request pipeline: admission, outbound construction, and the
//! translation of every outcome into the one reply the caller sees.
//!
//! `screen` decides, from the configuration and the raw inbound bytes
//! alone, whether a request is rejected on the spot or forwarded, and in
//! the latter case builds the complete outbound request. Only a `Forward`
//! decision ever reaches the network, so every rejection provably costs
//! zero transport calls. `settle` classifies what came back from the one
//! forwarding attempt, and `reply_of` maps each terminal state to its
//! outbound status.

use vstd::prelude::*;

use crate::pattern::Allowlist;
use crate::rpc::MethodAllowSet;
use crate::rpc::RpcFault;
use crate::rpc::RpcParts;
use crate::rpc::RpcShape;
use crate::rpc::allow_view;
use crate::rpc::is_doc_object;
use crate::rpc::method_of;
use crate::rpc::response_ok;
use crate::rpc::response_wf;
use crate::rpc::validate;
use crate::rpc::validate_spec;
use crate::json::is_json_doc;
use crate::transport::TransportPolicy;

verus! {

/// The bytes of `https://`: the outbound scheme is fixed and never
/// influenced by the caller.
pub open spec fn https_prefix() -> Seq<u8> {
    seq![104u8, 116u8, 116u8, 112u8, 115u8, 58u8, 47u8, 47u8]
}

/// The outbound URI for an admitted target.
pub open spec fn uri_of(t: Seq<u8>) -> Seq<u8> {
    https_prefix() + t
}

/// The bytes of `{"method":"`.
pub open spec fn method_open() -> Seq<u8> {
    seq![123u8, 34u8, 109u8, 101u8, 116u8, 104u8, 111u8, 100u8, 34u8, 58u8, 34u8]
}

/// The bytes of `,"params":`.
pub open spec fn params_open() -> Seq<u8> {
    seq![44u8, 34u8, 112u8, 97u8, 114u8, 97u8, 109u8, 115u8, 34u8, 58u8]
}

/// The bytes of `,"id":`.
pub open spec fn id_open() -> Seq<u8> {
    seq![44u8, 34u8, 105u8, 100u8, 34u8, 58u8]
}

/// The bytes of `,"jsonrpc":`.
pub open spec fn version_open() -> Seq<u8> {
    seq![44u8, 34u8, 106u8, 115u8, 111u8, 110u8, 114u8, 112u8, 99u8, 34u8, 58u8]
}

/// The canonical serialization of a validated request: the method first,
/// then whichever of `params`, `id` and `jsonrpc` the caller sent, each
/// member value as its raw bytes, unchanged.
pub open spec fn canon_body(s: RpcShape) -> Seq<u8> {
    method_open() + s.method + seq![34u8] + (match s.params {
        Some(p) => params_open() + p,
        None => Seq::<u8>::empty(),
    }) + (match s.id {
        Some(v) => id_open() + v,
        None => Seq::<u8>::empty(),
    }) + (match s.version {
        Some(v) => version_open() + v,
        None => Seq::<u8>::empty(),
    }) + seq![125u8]
}

/// Append all of `s` to `out`.
pub fn push_all(out: &mut Vec<u8>, s: &[u8])
    ensures
        final(out)@ == old(out)@ + s@,
{
    let ghost base = out@;
    let mut k: usize = 0;
    while k < s.len()
        invariant
            k <= s.len(),
            out@ == base + s@.subrange(0, k as int),
        decreases s.len() - k,
    {
        out.push(s[k]);
        proof {
            assert(out@ =~= base + s@.subrange(0, k + 1 as int));
        }
        k = k + 1;
    }
    proof {
        assert(out@ =~= base + s@);
    }
}

fn push_method_open(out: &mut Vec<u8>)
    ensures
        final(out)@ == old(out)@ + method_open(),
{
    out.push(123);
    out.push(34);
    out.push(109);
    out.push(101);
    out.push(116);
    out.push(104);
    out.push(111);
    out.push(100);
    out.push(34);
    out.push(58);
    out.push(34);
    proof {
        assert(out@ =~= old(out)@ + method_open());
    }
}

fn push_params_open(out: &mut Vec<u8>)
    ensures
        final(out)@ == old(out)@ + params_open(),
{
    out.push(44);
    out.push(34);
    out.push(112);
    out.push(97);
    out.push(114);
    out.push(97);
    out.push(109);
    out.push(115);
    out.push(34);
    out.push(58);
    proof {
        assert(out@ =~= old(out)@ + params_open());
    }
}

fn push_id_open(out: &mut Vec<u8>)
    ensures
        final(out)@ == old(out)@ + id_open(),
{
    out.push(44);
    out.push(34);
    out.push(105);
    out.push(100);
    out.push(34);
    out.push(58);
    proof {
        assert(out@ =~= old(out)@ + id_open());
    }
}

fn push_version_open(out: &mut Vec<u8>)
    ensures
        final(out)@ == old(out)@ + version_open(),
{
    out.push(44);
    out.push(34);
    out.push(106);
    out.push(115);
    out.push(111);
    out.push(110);
    out.push(114);
    out.push(112);
    out.push(99);
    out.push(34);
    out.push(58);
    proof {
        assert(out@ =~= old(out)@ + version_open());
    }
}

/// Serialize validated parts into the canonical outbound body.
pub fn canonical_body(p: &RpcParts) -> (r: Vec<u8>)
    ensures
        r@ == canon_body(p.shape()),
{
    let mut out: Vec<u8> = Vec::new();
    push_method_open(&mut out);
    push_all(&mut out, p.method.as_slice());
    out.push(34);
    let ghost g1 = method_open() + p.method@ + seq![34u8];
    proof {
        assert(out@ =~= g1);
    }
    let ghost g2 = g1 + (match p.shape().params {
        Some(pp) => params_open() + pp,
        None => Seq::<u8>::empty(),
    });
    match &p.params {
        Some(v) => {
            push_params_open(&mut out);
            push_all(&mut out, v.as_slice());
            proof {
                assert(out@ =~= g2);
            }
        },
        None => {
            proof {
                assert(out@ =~= g2);
            }
        },
    }
    let ghost g3 = g2 + (match p.shape().id {
        Some(vv) => id_open() + vv,
        None => Seq::<u8>::empty(),
    });
    match &p.id {
        Some(v) => {
            push_id_open(&mut out);
            push_all(&mut out, v.as_slice());
            proof {
                assert(out@ =~= g3);
            }
        },
        None => {
            proof {
                assert(out@ =~= g3);
            }
        },
    }
    let ghost g4 = g3 + (match p.shape().version {
        Some(vv) => version_open() + vv,
        None => Seq::<u8>::empty(),
    });
    match &p.version {
        Some(v) => {
            push_version_open(&mut out);
            push_all(&mut out, v.as_slice());
            proof {
                assert(out@ =~= g4);
            }
        },
        None => {
            proof {
                assert(out@ =~= g4);
            }
        },
    }
    out.push(125);
    proof {
        assert(out@ =~= g4 + seq![125u8]);
        assert(out@ =~= canon_body(p.shape()));
    }
    out
}

/// Why a request was turned away before forwarding.
#[derive(Clone, Copy, Debug, PartialEq, Eq, Structural)]
pub enum Rejection {
    /// The target matches no configured allow rule.
    Target,
    /// The body failed JSON-RPC validation or the method policy.
    Rpc(RpcFault),
}

/// The complete outbound request. The HTTP method is always POST and the
/// content type always `application/json`; neither is a field, so no
/// caller input can ever influence them.
#[derive(Debug)]
pub struct OutboundRequest {
    pub uri: Vec<u8>,
    pub body: Vec<u8>,
}

/// The admission verdict for one inbound request.
#[derive(Debug)]
pub enum Decision {
    Forward(OutboundRequest),
    Reject(Rejection),
}

/// What the single forwarding attempt came to, as the transport reports
/// it: no capability could be acquired, the send failed, or the upstream
/// answered with a status and a body.
#[derive(Debug)]
pub enum TransportOutcome {
    Unavailable,
    Unreachable,
    Response(u16, Vec<u8>),
}

/// The terminal state of one request.
#[derive(Debug)]
pub enum InboundResult {
    /// The upstream answered with a well-formed JSON-RPC body.
    Forwarded(u16, Vec<u8>),
    /// Turned away before any transport call.
    Rejected(Rejection),
    /// No send capability could be acquired.
    TransportUnavailable,
    /// Connection, TLS, timeout or transport-layer failure.
    UpstreamUnreachable,
    /// The upstream answered, but not with a JSON-RPC body.
    UpstreamMalformed,
}

/// The reply the caller receives.
#[derive(Debug)]
pub struct Reply {
    pub status: u16,
    pub body: Vec<u8>,
}

/// The process-wide configuration, read once at startup and immutable
/// while serving.
#[derive(Debug)]
pub struct Config {
    pub allowlist: Allowlist,
    pub methods: Option<MethodAllowSet>,
    pub policy: TransportPolicy,
}

/// The view of the optional configured method allow-set.
pub open spec fn methods_view(m: Option<MethodAllowSet>) -> Option<Seq<Seq<u8>>> {
    match m {
        Some(s) => Some(s.spec_methods()),
        None => None,
    }
}

/// The admission verdict, stated over the mathematical content alone.
pub enum Verdict {
    Forward(Seq<u8>, Seq<u8>),
    Reject(Rejection),
}

/// What `screen` decides: reject the target, reject the body, or forward
/// with exactly this URI and this canonical body.
pub open spec fn screen_spec(cfg: Config, t: Seq<u8>, b: Seq<u8>) -> Verdict {
    if !cfg.allowlist.spec_admits(t) {
        Verdict::Reject(Rejection::Target)
    } else {
        match validate_spec(b, methods_view(cfg.methods)) {
            Err(f) => Verdict::Reject(Rejection::Rpc(f)),
            Ok(s) => Verdict::Forward(uri_of(t), canon_body(s)),
        }
    }
}

/// Build the outbound request: fixed scheme, fixed method, canonical body.
pub fn build_outbound(target: &[u8], parts: &RpcParts) -> (r: OutboundRequest)
    ensures
        r.uri@ == uri_of(target@),
        r.body@ == canon_body(parts.shape()),
{
    let mut uri: Vec<u8> = Vec::new();
    uri.push(104);
    uri.push(116);
    uri.push(116);
    uri.push(112);
    uri.push(115);
    uri.push(58);
    uri.push(47);
    uri.push(47);
    proof {
        assert(uri@ =~= https_prefix());
    }
    push_all(&mut uri, target);
    OutboundRequest { uri, body: canonical_body(parts) }
}

/// Admit or reject one inbound request. A `Reject` decision is terminal:
/// nothing of the request ever reaches the transport.
pub fn screen(cfg: &Config, target: &[u8], body: &[u8]) -> (d: Decision)
    ensures
        (match d {
            Decision::Forward(req) => screen_spec(*cfg, target@, body@) == Verdict::Forward(
                req.uri@,
                req.body@,
            ),
            Decision::Reject(rej) => screen_spec(*cfg, target@, body@) == Verdict::Reject(rej),
        }),
{
    if !cfg.allowlist.admits(target) {
        return Decision::Reject(Rejection::Target);
    }
    let vres = match &cfg.methods {
        Some(s) => {
            proof {
                assert(methods_view(cfg.methods) == allow_view(Some(s)));
            }
            validate(body, Some(s))
        },
        None => {
            proof {
                assert(methods_view(cfg.methods) == allow_view(None::<&MethodAllowSet>));
            }
            validate(body, None)
        },
    };
    match vres {
        Err(f) => Decision::Reject(Rejection::Rpc(f)),
        Ok(parts) => Decision::Forward(build_outbound(target, &parts)),
    }
}

/// How the single forwarding attempt settles.
pub open spec fn settle_spec(o: TransportOutcome) -> InboundResult {
    match o {
        TransportOutcome::Unavailable => InboundResult::TransportUnavailable,
        TransportOutcome::Unreachable => InboundResult::UpstreamUnreachable,
        TransportOutcome::Response(st, b) => if response_wf(b@) {
            InboundResult::Forwarded(st, b)
        } else {
            InboundResult::UpstreamMalformed
        },
    }
}

/// Classify the transport's report: a transport failure and a malformed
/// upstream payload are distinct terminal states, though both end in the
/// same outbound status.
pub fn settle(o: TransportOutcome) -> (r: InboundResult)
    ensures
        r == settle_spec(o),
{
    match o {
        TransportOutcome::Unavailable => InboundResult::TransportUnavailable,
        TransportOutcome::Unreachable => InboundResult::UpstreamUnreachable,
        TransportOutcome::Response(st, b) => {
            if response_ok(b.as_slice()) {
                InboundResult::Forwarded(st, b)
            } else {
                InboundResult::UpstreamMalformed
            }
        },
    }
}

/// The outbound status of a rejection.
pub open spec fn rejection_status(rej: Rejection) -> u16 {
    match rej {
        Rejection::Target => 400u16,
        Rejection::Rpc(f) => if f is MethodNotAllowed {
            403u16
        } else {
            400u16
        },
    }
}

/// The reply for each terminal state: a forwarded result mirrors the
/// upstream status and carries the upstream body verbatim; every other
/// state carries an empty body and its category's status.
pub open spec fn reply_spec(r: InboundResult) -> (u16, Seq<u8>) {
    match r {
        InboundResult::Forwarded(st, b) => (st, b@),
        InboundResult::Rejected(rej) => (rejection_status(rej), Seq::<u8>::empty()),
        InboundResult::TransportUnavailable => (500u16, Seq::<u8>::empty()),
        InboundResult::UpstreamUnreachable => (502u16, Seq::<u8>::empty()),
        InboundResult::UpstreamMalformed => (502u16, Seq::<u8>::empty()),
    }
}

/// Translate a terminal state into the caller's reply.
pub fn reply_of(r: InboundResult) -> (rep: Reply)
    ensures
        rep.status == reply_spec(r).0,
        rep.body@ == reply_spec(r).1,
{
    match r {
        InboundResult::Forwarded(st, b) => Reply { status: st, body: b },
        InboundResult::Rejected(rej) => {
            let st: u16 = match rej {
                Rejection::Target => 400,
                Rejection::Rpc(f) => {
                    match f {
                        RpcFault::MethodNotAllowed => 403,
                        _ => 400,
                    }
                },
            };
            Reply { status: st, body: Vec::new() }
        },
        InboundResult::TransportUnavailable => Reply { status: 500, body: Vec::new() },
        InboundResult::UpstreamUnreachable => Reply { status: 502, body: Vec::new() },
        InboundResult::UpstreamMalformed => Reply { status: 502, body: Vec::new() },
    }
}

/// With a method allow-set configured, a request whose method lies
/// outside the set is turned away as `MethodNotAllowed` — the 403
/// category — even when its target is admitted; the verdict is never a
/// `Forward`, so the rejection provably costs zero transport calls.
pub proof fn lemma_method_rejection_precedes_forwarding(cfg: Config, t: Seq<u8>, b: Seq<u8>)
    requires
        cfg.allowlist.spec_admits(t),
        methods_view(cfg.methods) is Some,
        is_json_doc(b),
        is_doc_object(b),
        method_of(b) is Some,
        method_of(b).unwrap().len() > 0,
        !methods_view(cfg.methods).unwrap().contains(method_of(b).unwrap()),
    ensures
        screen_spec(cfg, t, b) == Verdict::Reject(Rejection::Rpc(RpcFault::MethodNotAllowed)),
        rejection_status(Rejection::Rpc(RpcFault::MethodNotAllowed)) == 403,
{
}

/// Round trip: a well-formed upstream response settles as `Forwarded`
/// and is returned to the caller byte-identical, under the upstream's
/// own status.
pub proof fn lemma_upstream_round_trip(st: u16, body: Vec<u8>)
    requires
        response_wf(body@),
    ensures
        reply_spec(settle_spec(TransportOutcome::Response(st, body))) == (st, body@),
{
}

/// A target outside the allowlist is turned away as a target rejection —
/// the 400 category — whatever the body holds, and the verdict is never
/// a `Forward`.
pub proof fn lemma_unlisted_target_rejected(cfg: Config, t: Seq<u8>, b: Seq<u8>)
    requires
        !cfg.allowlist.spec_admits(t),
    ensures
        screen_spec(cfg, t, b) == Verdict::Reject(Rejection::Target),
        rejection_status(Rejection::Target) == 400,
{
}

} // verus!

use rpc_gate::pattern::AllowRule;
use rpc_gate::pattern::Allowlist;
use rpc_gate::pipeline::Config;
use rpc_gate::pipeline::Decision;
use rpc_gate::pipeline::InboundResult;
use rpc_gate::pipeline::Rejection;
use rpc_gate::pipeline::TransportOutcome;
use rpc_gate::pipeline::reply_of;
use rpc_gate::pipeline::screen;
use rpc_gate::pipeline::settle;
use rpc_gate::rpc::MethodAllowSet;
use rpc_gate::rpc::RpcFault;
use rpc_gate::transport::TransportPolicy;

fn provider_config(methods: Option<Vec<&[u8]>>) -> Config {
    let rules = vec![AllowRule::new(b"*.providerA.example/*".to_vec())];
    Config {
        allowlist: Allowlist::new(rules),
        methods: methods.map(|ms| MethodAllowSet::new(ms.iter().map(|m| m.to_vec()).collect())),
        policy: TransportPolicy::Shared,
    }
}

const GOOD_BODY: &[u8] =
    b"{\"jsonrpc\":\"2.0\",\"id\":1,\"method\":\"eth_getBlockByNumber\",\"params\":[\"latest\",false]}";

#[test]
fn allowed_target_and_valid_body_forward() {
    let cfg = provider_config(Some(vec![b"eth_getBlockByNumber"]));
    let d = screen(&cfg, b"rpc.providerA.example/v2/key123", GOOD_BODY);
    match d {
        Decision::Forward(req) => {
            assert_eq!(req.uri, b"https://rpc.providerA.example/v2/key123".to_vec());
            assert_eq!(
                req.body,
                b"{\"method\":\"eth_getBlockByNumber\",\"params\":[\"latest\",false],\"id\":1,\"jsonrpc\":\"2.0\"}"
                    .to_vec()
            );
        }
        Decision::Reject(_) => panic!("an admitted request must forward"),
    }
    // the stubbed upstream answers 200 with a JSON-RPC result; the reply
    // mirrors the status
    let upstream = b"{\"jsonrpc\":\"2.0\",\"id\":1,\"result\":{\"number\":\"0x1b4\"}}".to_vec();
    let rep = reply_of(settle(TransportOutcome::Response(200, upstream.clone())));
    assert_eq!(rep.status, 200);
    assert_eq!(rep.body, upstream);
}

#[test]
fn disallowed_target_is_rejected_with_400_and_no_transport_call() {
    let cfg = provider_config(None);
    let d = screen(&cfg, b"evil.example/v2/key123", GOOD_BODY);
    match d {
        Decision::Reject(rej) => {
            assert_eq!(rej, Rejection::Target);
            let rep = reply_of(InboundResult::Rejected(rej));
            assert_eq!(rep.status, 400);
            assert!(rep.body.is_empty());
        }
        // a Forward decision is the only road to the transport, so
        // reaching this arm would mean a transport call was made
        Decision::Forward(_) => panic!("rejected target must never reach the transport"),
    }
}

#[test]
fn non_json_body_is_rejected_with_400_and_no_transport_call() {
    let cfg = provider_config(None);
    let d = screen(&cfg, b"rpc.providerA.example/v2/key123", b"not-json");
    match d {
        Decision::Reject(rej) => {
            assert_eq!(rej, Rejection::Rpc(RpcFault::MalformedJson));
            assert_eq!(reply_of(InboundResult::Rejected(rej)).status, 400);
        }
        Decision::Forward(_) => panic!("malformed body must never reach the transport"),
    }
}

#[test]
fn method_outside_the_set_is_rejected_with_403_and_no_transport_call() {
    let cfg = provider_config(Some(vec![b"eth_getBlockByNumber", b"eth_call"]));
    let body = b"{\"jsonrpc\":\"2.0\",\"id\":2,\"method\":\"eth_sendRawTransaction\",\"params\":[]}";
    let d = screen(&cfg, b"rpc.providerA.example/v2/key123", body);
    match d {
        Decision::Reject(rej) => {
            assert_eq!(rej, Rejection::Rpc(RpcFault::MethodNotAllowed));
            let rep = reply_of(InboundResult::Rejected(rej));
            assert_eq!(rep.status, 403);
            assert!(rep.body.is_empty());
        }
        Decision::Forward(_) => panic!("disallowed method must never reach the transport"),
    }
}

#[test]
fn transport_connection_error_maps_to_502() {
    let rep = reply_of(settle(TransportOutcome::Unreachable));
    assert_eq!(rep.status, 502);
    assert!(rep.body.is_empty());
}

#[test]
fn unavailable_transport_maps_to_500() {
    let rep = reply_of(settle(TransportOutcome::Unavailable));
    assert_eq!(rep.status, 500);
    assert!(rep.body.is_empty());
}

#[test]
fn malformed_upstream_body_maps_to_502_via_its_own_state() {
    let r = settle(TransportOutcome::Response(200, b"{\"not\":\"rpc\"}".to_vec()));
    // same outbound status as a transport failure, but a distinct
    // terminal state
    assert!(matches!(r, InboundResult::UpstreamMalformed));
    let unreachable = settle(TransportOutcome::Unreachable);
    assert!(matches!(unreachable, InboundResult::UpstreamUnreachable));
    assert_eq!(reply_of(r).status, 502);
}

#[test]
fn upstream_body_returns_byte_identical() {
    // unicode, a large numeric id, nested result and error members
    let upstream: Vec<u8> = [
        &b"{\"jsonrpc\":\"2.0\",\"id\":123456789012345678901234567890,"[..],
        &b"\"result\":{\"msg\":\"caf\xc3\xa9 \\u00e9\",\"deep\":[{\"a\":[1,2,{\"b\":null}]}]}}"[..],
    ]
    .concat();
    let rep = reply_of(settle(TransportOutcome::Response(207, upstream.clone())));
    assert_eq!(rep.status, 207);
    assert_eq!(rep.body, upstream);
}

#[test]
fn upstream_error_member_also_passes_through() {
    let upstream = b"{\"jsonrpc\":\"2.0\",\"id\":null,\"error\":{\"code\":-32601,\"message\":\"nope\"}}"
        .to_vec();
    let rep = reply_of(settle(TransportOutcome::Response(200, upstream.clone())));
    assert_eq!(rep.status, 200);
    assert_eq!(rep.body, upstream);
}

#[test]
fn every_rejection_category_has_its_status() {
    assert_eq!(reply_of(InboundResult::Rejected(Rejection::Target)).status, 400);
    assert_eq!(
        reply_of(InboundResult::Rejected(Rejection::Rpc(RpcFault::MalformedJson))).status,
        400
    );
    assert_eq!(
        reply_of(InboundResult::Rejected(Rejection::Rpc(RpcFault::MissingMethod))).status,
        400
    );
    assert_eq!(
        reply_of(InboundResult::Rejected(Rejection::Rpc(RpcFault::MalformedRpc))).status,
        400
    );
    assert_eq!(
        reply_of(InboundResult::Rejected(Rejection::Rpc(RpcFault::MethodNotAllowed))).status,
        403
    );
    assert_eq!(reply_of(InboundResult::TransportUnavailable).status, 500);
    assert_eq!(reply_of(InboundResult::UpstreamUnreachable).status, 502);
    assert_eq!(reply_of(InboundResult::UpstreamMalformed).status, 502);
}

#[test]
fn forward_without_optional_members_serializes_method_alone() {
    let cfg = provider_config(None);
    let d = screen(&cfg, b"a.providerA.example/x", b"  {\"method\":\"m1\"}  ");
    match d {
        Decision::Forward(req) => {
            assert_eq!(req.body, b"{\"method\":\"m1\"}".to_vec());
        }
        Decision::Reject(_) => panic!("valid minimal request must forward"),
    }
}

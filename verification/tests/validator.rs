use rpc_gate::rpc::MethodAllowSet;
use rpc_gate::rpc::RpcFault;
use rpc_gate::rpc::response_ok;
use rpc_gate::rpc::validate;

#[test]
fn not_json_is_malformed_json() {
    let r = validate(b"not-json", None);
    assert_eq!(r.unwrap_err(), RpcFault::MalformedJson);
}

#[test]
fn truncated_document_is_malformed_json() {
    assert_eq!(validate(b"{\"method\":\"m\"", None).unwrap_err(), RpcFault::MalformedJson);
    assert_eq!(validate(b"", None).unwrap_err(), RpcFault::MalformedJson);
    assert_eq!(validate(b"{\"method\":\"m\"} x", None).unwrap_err(), RpcFault::MalformedJson);
}

#[test]
fn non_object_document_misses_the_method() {
    assert_eq!(validate(b"[1,2,3]", None).unwrap_err(), RpcFault::MissingMethod);
    assert_eq!(validate(b"\"method\"", None).unwrap_err(), RpcFault::MissingMethod);
    assert_eq!(validate(b"{}", None).unwrap_err(), RpcFault::MissingMethod);
}

#[test]
fn missing_or_non_string_method_is_rejected() {
    assert_eq!(validate(b"{\"id\":1}", None).unwrap_err(), RpcFault::MissingMethod);
    assert_eq!(validate(b"{\"method\":5}", None).unwrap_err(), RpcFault::MissingMethod);
    assert_eq!(validate(b"{\"method\":\"\"}", None).unwrap_err(), RpcFault::MissingMethod);
}

#[test]
fn canonical_request_is_extracted() {
    let body = b"{\"jsonrpc\":\"2.0\",\"id\":1,\"method\":\"eth_call\",\"params\":[\"latest\",false]}";
    let p = validate(body, None).unwrap();
    assert_eq!(p.method, b"eth_call".to_vec());
    assert_eq!(p.id.unwrap(), b"1".to_vec());
    assert_eq!(p.params.unwrap(), b"[\"latest\",false]".to_vec());
    assert_eq!(p.version.unwrap(), b"\"2.0\"".to_vec());
}

#[test]
fn absent_optional_members_stay_absent() {
    let p = validate(b"{\"method\":\"m1\"}", None).unwrap();
    assert_eq!(p.method, b"m1".to_vec());
    assert!(p.id.is_none());
    assert!(p.params.is_none());
    assert!(p.version.is_none());
}

#[test]
fn unknown_top_level_key_is_malformed_rpc() {
    let r = validate(b"{\"method\":\"m\",\"extra\":1}", None);
    assert_eq!(r.unwrap_err(), RpcFault::MalformedRpc);
}

#[test]
fn method_outside_the_set_is_rejected() {
    let set = MethodAllowSet::new(vec![b"eth_getBlockByNumber".to_vec()]);
    let r = validate(b"{\"method\":\"eth_sendRawTransaction\"}", Some(&set));
    assert_eq!(r.unwrap_err(), RpcFault::MethodNotAllowed);
}

#[test]
fn method_inside_the_set_passes() {
    let set = MethodAllowSet::new(vec![b"a".to_vec(), b"eth_call".to_vec()]);
    let p = validate(b"{\"method\":\"eth_call\"}", Some(&set)).unwrap();
    assert_eq!(p.method, b"eth_call".to_vec());
}

#[test]
fn method_check_precedes_shape_check() {
    // the method lies outside the set and the shape is also bad: the
    // method rejection wins, as the pipeline checks it first
    let set = MethodAllowSet::new(vec![b"good".to_vec()]);
    let r = validate(b"{\"method\":\"bad\",\"extra\":1}", Some(&set));
    assert_eq!(r.unwrap_err(), RpcFault::MethodNotAllowed);
}

#[test]
fn first_occurrence_of_a_repeated_member_wins() {
    let p = validate(b"{\"method\":\"first\",\"method\":\"second\"}", None).unwrap();
    assert_eq!(p.method, b"first".to_vec());
}

#[test]
fn validation_is_deterministic_on_the_same_bytes() {
    let body: &[u8] = b"{\"method\":5}";
    let first = validate(body, None).unwrap_err();
    let second = validate(body, None).unwrap_err();
    assert_eq!(first, second);
    let ok_body: &[u8] = b"{\"method\":\"m\"}";
    assert_eq!(
        validate(ok_body, None).unwrap().method,
        validate(ok_body, None).unwrap().method
    );
}

#[test]
fn exotic_but_well_formed_params_pass() {
    let body = b"{\"method\":\"m\",\"params\":{\"a\":[-1.5e-3,\"\\u00e9 \\\" ok\",null,true,false],\"b\":{}}}";
    let p = validate(body, None).unwrap();
    assert_eq!(
        p.params.unwrap(),
        b"{\"a\":[-1.5e-3,\"\\u00e9 \\\" ok\",null,true,false],\"b\":{}}".to_vec()
    );
}

#[test]
fn bad_escape_or_bare_control_byte_is_malformed_json() {
    assert_eq!(validate(b"{\"method\":\"\\x\"}", None).unwrap_err(), RpcFault::MalformedJson);
    assert_eq!(validate(b"{\"method\":\"a\nb\"}", None).unwrap_err(), RpcFault::MalformedJson);
}

#[test]
fn response_needs_result_or_error_member() {
    assert!(response_ok(b"{\"jsonrpc\":\"2.0\",\"id\":1,\"result\":\"0x0\"}"));
    assert!(response_ok(b"{\"error\":{\"code\":-32600},\"id\":null}"));
    assert!(!response_ok(b"{\"not\":\"rpc\"}"));
    assert!(!response_ok(b"not json"));
    assert!(!response_ok(b"[{\"result\":1}]"));
    assert!(!response_ok(b"{}"));
}

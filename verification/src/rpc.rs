//! JSON-RPC structural validation and canonical re-serialization.
//!
//! A request body is admitted when it is one well-formed JSON document,
//! its top-level value is an object carrying a non-empty string `method`
//! member, the method is permitted by the configured allow-set (when one
//! is configured), and every top-level key belongs to the canonical
//! request shape (`jsonrpc`, `id`, `method`, `params`). Each stage that
//! can fail is its own rejection category, and the whole verdict is a
//! function of the body bytes alone.
//!
//! Member values are carried as their raw byte ranges, so the canonical
//! re-serialization never re-encodes a number, a string or a nested
//! structure.

use vstd::prelude::*;

use crate::json::copy_range;
use crate::json::find_member;
use crate::json::find_member_x;
use crate::json::is_json_doc;
use crate::json::keys_within;
use crate::json::keys_within_x;
use crate::json::lemma_find_member_range;
use crate::json::lemma_scan_str_rest_bounds;
use crate::json::scan_value_x;
use crate::json::skip_ws;
use crate::json::skip_ws_x;
use crate::json::vecs_view;

verus! {

/// The bytes of the key `method`.
pub open spec fn method_key() -> Seq<u8> {
    seq![109u8, 101u8, 116u8, 104u8, 111u8, 100u8]
}

/// The bytes of the key `id`.
pub open spec fn id_key() -> Seq<u8> {
    seq![105u8, 100u8]
}

/// The bytes of the key `params`.
pub open spec fn params_key() -> Seq<u8> {
    seq![112u8, 97u8, 114u8, 97u8, 109u8, 115u8]
}

/// The bytes of the key `jsonrpc`.
pub open spec fn version_key() -> Seq<u8> {
    seq![106u8, 115u8, 111u8, 110u8, 114u8, 112u8, 99u8]
}

/// The bytes of the key `result`.
pub open spec fn result_key() -> Seq<u8> {
    seq![114u8, 101u8, 115u8, 117u8, 108u8, 116u8]
}

/// The bytes of the key `error`.
pub open spec fn error_key() -> Seq<u8> {
    seq![101u8, 114u8, 114u8, 111u8, 114u8]
}

/// The keys a canonical JSON-RPC request object may carry.
pub open spec fn rpc_keys() -> Seq<Seq<u8>> {
    seq![version_key(), id_key(), method_key(), params_key()]
}

fn method_key_vec() -> (r: Vec<u8>)
    ensures
        r@ == method_key(),
{
    let mut v: Vec<u8> = Vec::new();
    v.push(109);
    v.push(101);
    v.push(116);
    v.push(104);
    v.push(111);
    v.push(100);
    proof {
        assert(v@ =~= method_key());
    }
    v
}

fn id_key_vec() -> (r: Vec<u8>)
    ensures
        r@ == id_key(),
{
    let mut v: Vec<u8> = Vec::new();
    v.push(105);
    v.push(100);
    proof {
        assert(v@ =~= id_key());
    }
    v
}

fn params_key_vec() -> (r: Vec<u8>)
    ensures
        r@ == params_key(),
{
    let mut v: Vec<u8> = Vec::new();
    v.push(112);
    v.push(97);
    v.push(114);
    v.push(97);
    v.push(109);
    v.push(115);
    proof {
        assert(v@ =~= params_key());
    }
    v
}

fn version_key_vec() -> (r: Vec<u8>)
    ensures
        r@ == version_key(),
{
    let mut v: Vec<u8> = Vec::new();
    v.push(106);
    v.push(115);
    v.push(111);
    v.push(110);
    v.push(114);
    v.push(112);
    v.push(99);
    proof {
        assert(v@ =~= version_key());
    }
    v
}

fn result_key_vec() -> (r: Vec<u8>)
    ensures
        r@ == result_key(),
{
    let mut v: Vec<u8> = Vec::new();
    v.push(114);
    v.push(101);
    v.push(115);
    v.push(117);
    v.push(108);
    v.push(116);
    proof {
        assert(v@ =~= result_key());
    }
    v
}

fn error_key_vec() -> (r: Vec<u8>)
    ensures
        r@ == error_key(),
{
    let mut v: Vec<u8> = Vec::new();
    v.push(101);
    v.push(114);
    v.push(114);
    v.push(111);
    v.push(114);
    proof {
        assert(v@ =~= error_key());
    }
    v
}

fn rpc_keys_vec() -> (r: Vec<Vec<u8>>)
    ensures
        vecs_view(r@) == rpc_keys(),
{
    let mut v: Vec<Vec<u8>> = Vec::new();
    v.push(version_key_vec());
    v.push(id_key_vec());
    v.push(method_key_vec());
    v.push(params_key_vec());
    proof {
        assert(vecs_view(v@)[0] == version_key());
        assert(vecs_view(v@)[1] == id_key());
        assert(vecs_view(v@)[2] == method_key());
        assert(vecs_view(v@)[3] == params_key());
        assert(vecs_view(v@) =~= rpc_keys());
    }
    v
}

/// Index of the first byte of the document's value.
pub open spec fn doc_start(b: Seq<u8>) -> int {
    skip_ws(b, 0)
}

/// The document is well-formed and its value is an object.
pub open spec fn is_doc_object(b: Seq<u8>) -> bool {
    is_json_doc(b) && doc_start(b) < b.len() && b[doc_start(b)] == 123
}

/// Index of the first member's key of the top-level object.
pub open spec fn first_member_at(b: Seq<u8>) -> int {
    skip_ws(b, doc_start(b) + 1)
}

/// The top-level object has no members.
pub open spec fn doc_obj_empty(b: Seq<u8>) -> bool {
    first_member_at(b) < b.len() && b[first_member_at(b)] == 125
}

/// Byte range of the value of the first top-level member named `key`.
pub open spec fn doc_member(b: Seq<u8>, key: Seq<u8>) -> Option<(int, int)> {
    if is_doc_object(b) && !doc_obj_empty(b) {
        find_member(b, first_member_at(b), key)
    } else {
        None
    }
}

/// Raw bytes of the value of the first top-level member named `key`.
pub open spec fn doc_member_raw(b: Seq<u8>, key: Seq<u8>) -> Option<Seq<u8>> {
    match doc_member(b, key) {
        Some((v, ve)) => Some(b.subrange(v, ve)),
        None => None,
    }
}

/// Raw content (escapes untouched) of the value of the member named `key`,
/// provided that value is a string.
pub open spec fn doc_member_str(b: Seq<u8>, key: Seq<u8>) -> Option<Seq<u8>> {
    match doc_member(b, key) {
        Some((v, ve)) => if b[v] == 34 {
            Some(b.subrange(v + 1, ve - 1))
        } else {
            None
        },
        None => None,
    }
}

/// The request's method name, when the body carries one of string type.
pub open spec fn method_of(b: Seq<u8>) -> Option<Seq<u8>> {
    doc_member_str(b, method_key())
}

/// Every top-level key of the request object is a canonical one.
pub open spec fn doc_keys_allowed(b: Seq<u8>) -> bool {
    is_doc_object(b) && (doc_obj_empty(b) || keys_within(b, first_member_at(b), rpc_keys()))
}

/// Why a request body was turned away.
#[derive(Clone, Copy, Debug, PartialEq, Eq, Structural)]
pub enum RpcFault {
    /// The bytes are not one well-formed JSON document.
    MalformedJson,
    /// The document carries no non-empty string `method` member.
    MissingMethod,
    /// The method is not in the configured allow-set.
    MethodNotAllowed,
    /// The document is not of the canonical request shape.
    MalformedRpc,
}

/// The mathematical content of a validated request: the method name and
/// the raw bytes of the optional members.
pub struct RpcShape {
    pub method: Seq<u8>,
    pub id: Option<Seq<u8>>,
    pub params: Option<Seq<u8>>,
    pub version: Option<Seq<u8>>,
}

/// The validation verdict for body `b` under the optional method
/// allow-set `allowed`: each rejection category in the order the pipeline
/// checks them, or the extracted request shape.
pub open spec fn validate_spec(b: Seq<u8>, allowed: Option<Seq<Seq<u8>>>) -> Result<
    RpcShape,
    RpcFault,
> {
    if !is_json_doc(b) {
        Err(RpcFault::MalformedJson)
    } else if !(is_doc_object(b) && method_of(b) is Some && method_of(b).unwrap().len() > 0) {
        Err(RpcFault::MissingMethod)
    } else if allowed is Some && !allowed.unwrap().contains(method_of(b).unwrap()) {
        Err(RpcFault::MethodNotAllowed)
    } else if !doc_keys_allowed(b) {
        Err(RpcFault::MalformedRpc)
    } else {
        Ok(
            RpcShape {
                method: method_of(b).unwrap(),
                id: doc_member_raw(b, id_key()),
                params: doc_member_raw(b, params_key()),
                version: doc_member_raw(b, version_key()),
            },
        )
    }
}

/// Validation is a pure function of the body bytes: equal bodies validate
/// alike, however often and wherever the question is asked.
pub proof fn lemma_validation_deterministic(b1: Seq<u8>, b2: Seq<u8>, allowed: Option<Seq<Seq<u8>>>)
    requires
        b1 == b2,
    ensures
        validate_spec(b1, allowed) == validate_spec(b2, allowed),
{
}

/// The configured set of permitted method names.
#[derive(Debug)]
pub struct MethodAllowSet {
    pub methods: Vec<Vec<u8>>,
}

/// Compare two byte strings.
pub fn eq_bytes(a: &[u8], c: &[u8]) -> (r: bool)
    ensures
        r == (a@ == c@),
{
    if a.len() != c.len() {
        return false;
    }
    let mut k: usize = 0;
    while k < a.len()
        invariant
            a.len() == c.len(),
            k <= a.len(),
            forall|m: int| 0 <= m < k ==> a@[m] == c@[m],
        decreases a.len() - k,
    {
        if a[k] != c[k] {
            return false;
        }
        k = k + 1;
    }
    proof {
        assert(a@ =~= c@);
    }
    true
}

impl MethodAllowSet {
    /// The set's contents, as byte strings.
    pub open spec fn spec_methods(&self) -> Seq<Seq<u8>> {
        vecs_view(self.methods@)
    }

    pub fn new(methods: Vec<Vec<u8>>) -> (r: MethodAllowSet)
        ensures
            r.spec_methods() == vecs_view(methods@),
    {
        MethodAllowSet { methods }
    }

    /// Is `m` one of the permitted method names?
    pub fn permits(&self, m: &[u8]) -> (r: bool)
        ensures
            r == self.spec_methods().contains(m@),
    {
        let mut i: usize = 0;
        while i < self.methods.len()
            invariant
                i <= self.methods.len(),
                forall|k: int| 0 <= k < i ==> vecs_view(self.methods@)[k] != m@,
            decreases self.methods.len() - i,
        {
            proof {
                assert(vecs_view(self.methods@)[i as int] == self.methods@[i as int]@);
            }
            if eq_bytes(self.methods[i].as_slice(), m) {
                assert(self.spec_methods().contains(m@)) by {
                    assert(self.spec_methods()[i as int] == m@);
                }
                return true;
            }
            i = i + 1;
        }
        assert(!self.spec_methods().contains(m@)) by {
            if self.spec_methods().contains(m@) {
                let k = choose|k: int|
                    0 <= k < self.spec_methods().len() && self.spec_methods()[k] == m@;
                assert(vecs_view(self.methods@)[k] != m@);
            }
        }
        false
    }
}

/// The view of an optional allow-set handed to the validator.
pub open spec fn allow_view(a: Option<&MethodAllowSet>) -> Option<Seq<Seq<u8>>> {
    match a {
        Some(s) => Some(s.spec_methods()),
        None => None,
    }
}

/// A validated request, each member as the raw bytes the caller sent.
#[derive(Debug)]
pub struct RpcParts {
    pub method: Vec<u8>,
    pub id: Option<Vec<u8>>,
    pub params: Option<Vec<u8>>,
    pub version: Option<Vec<u8>>,
}

impl RpcParts {
    /// The mathematical content of the parts.
    pub open spec fn shape(&self) -> RpcShape {
        RpcShape {
            method: self.method@,
            id: match self.id {
                Some(v) => Some(v@),
                None => None,
            },
            params: match self.params {
                Some(v) => Some(v@),
                None => None,
            },
            version: match self.version {
                Some(v) => Some(v@),
                None => None,
            },
        }
    }
}

/// Validate `body` against the JSON-RPC request grammar and the optional
/// method allow-set; on success the extracted parts are exactly what
/// `validate_spec` names, on failure the fault is exactly the category
/// `validate_spec` names.
pub fn validate(body: &[u8], allowed: Option<&MethodAllowSet>) -> (r: Result<RpcParts, RpcFault>)
    ensures
        (match r {
            Ok(p) => validate_spec(body@, allow_view(allowed)) == Ok::<RpcShape, RpcFault>(
                p.shape(),
            ),
            Err(f) => validate_spec(body@, allow_view(allowed)) == Err::<RpcShape, RpcFault>(f),
        }),
{
    let s = skip_ws_x(body, 0);
    let e = match scan_value_x(body, s) {
        None => {
            return Err(RpcFault::MalformedJson);
        },
        Some(e) => e,
    };
    if skip_ws_x(body, e) != body.len() {
        return Err(RpcFault::MalformedJson);
    }
    assert(is_json_doc(body@));
    assert(s < body.len());
    if body[s] != 123 {
        return Err(RpcFault::MissingMethod);
    }
    let fm = skip_ws_x(body, s + 1);
    if fm < body.len() && body[fm] == 125 {
        return Err(RpcFault::MissingMethod);
    }
    let mkey = method_key_vec();
    let (mv, mve) = match find_member_x(body, fm, mkey.as_slice()) {
        None => {
            return Err(RpcFault::MissingMethod);
        },
        Some(p) => p,
    };
    if body[mv] != 34 {
        return Err(RpcFault::MissingMethod);
    }
    proof {
        lemma_find_member_range(body@, fm as int, mkey@);
        lemma_scan_str_rest_bounds(body@, mv as int + 1);
    }
    if !(mve - mv > 2) {
        return Err(RpcFault::MissingMethod);
    }
    let method = copy_range(body, mv + 1, mve - 1);
    match allowed {
        Some(set) => {
            if !set.permits(method.as_slice()) {
                return Err(RpcFault::MethodNotAllowed);
            }
        },
        None => {},
    }
    let keys = rpc_keys_vec();
    if !keys_within_x(body, fm, &keys) {
        return Err(RpcFault::MalformedRpc);
    }
    let ikey = id_key_vec();
    let id = match find_member_x(body, fm, ikey.as_slice()) {
        Some((v, ve)) => Some(copy_range(body, v, ve)),
        None => None,
    };
    let pkey = params_key_vec();
    let params = match find_member_x(body, fm, pkey.as_slice()) {
        Some((v, ve)) => Some(copy_range(body, v, ve)),
        None => None,
    };
    let vkey = version_key_vec();
    let version = match find_member_x(body, fm, vkey.as_slice()) {
        Some((v, ve)) => Some(copy_range(body, v, ve)),
        None => None,
    };
    Ok(RpcParts { method, id, params, version })
}

/// An upstream body counts as a JSON-RPC response when it is a JSON
/// object carrying a `result` or an `error` member.
pub open spec fn response_wf(b: Seq<u8>) -> bool {
    is_doc_object(b) && (doc_member(b, result_key()) is Some || doc_member(
        b,
        error_key(),
    ) is Some)
}

/// Decide `response_wf` on real bytes.
pub fn response_ok(b: &[u8]) -> (r: bool)
    ensures
        r == response_wf(b@),
{
    let s = skip_ws_x(b, 0);
    let e = match scan_value_x(b, s) {
        None => {
            return false;
        },
        Some(e) => e,
    };
    if skip_ws_x(b, e) != b.len() {
        return false;
    }
    assert(s < b.len());
    if b[s] != 123 {
        return false;
    }
    let fm = skip_ws_x(b, s + 1);
    if fm < b.len() && b[fm] == 125 {
        return false;
    }
    let rkey = result_key_vec();
    if find_member_x(b, fm, rkey.as_slice()).is_some() {
        return true;
    }
    let ekey = error_key_vec();
    find_member_x(b, fm, ekey.as_slice()).is_some()
}

} // verus!

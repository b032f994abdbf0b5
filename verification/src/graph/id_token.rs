//! Claims of the OpenID `id_token` (a JWT; its signature is not checked: the
//! token arrives over TLS from the Microsoft identity platform).

use vstd::prelude::*;

use crate::graph::codec::{base64_url_nopad_decode, base64_url_nopad_decode_spec};
use crate::graph::error::{GraphInternalError, GraphInternalErrorView};
use crate::graph::json::{json_pointer, json_pointer_spec};
use crate::protocol::enums::AccountKind;
use crate::text::{find_first, str_chars, str_equal, string_of};
use vstd::utf8::encode_utf8;

verus! {

/// Microsoft's tenant id for consumer (personal) accounts.
pub const CONSUMER_TENANT_ID: &'static str = "9188040d-6c67-4c5b-b112-36a304b66dad";

/// Claims extracted from the `id_token`.
#[derive(Debug, Clone)]
pub struct IdTokenClaims {
    /// Azure AD tenant identifier.
    pub tid: String,
    /// Object (user) identifier within the tenant.
    pub oid: String,
    /// User principal name / e-mail.
    pub upn: String,
    /// Display name.
    pub display_name: String,
    /// Personal when `tid` is the consumer tenant, else business.
    pub kind: AccountKind,
}

/// The payload segment: between the first and second `.`; `None` when there
/// are fewer than two dots.
pub open spec fn payload_segment(t: Seq<char>) -> Option<Seq<char>> {
    match t.index_of_first('.') {
        Some(d1) => {
            let rest = t.subrange(d1 + 1, t.len() as int);
            match rest.index_of_first('.') {
                Some(d2) => Some(rest.take(d2)),
                None => None,
            }
        },
        None => None,
    }
}

/// The model of the claims.
pub struct ClaimsView {
    pub tid: Seq<char>,
    pub oid: Seq<char>,
    pub upn: Seq<char>,
    pub display_name: Seq<char>,
    pub kind: AccountKind,
}

/// A string claim, or `""` when it is absent or not a string.
pub open spec fn claim_or_empty(found: Option<Option<Seq<char>>>) -> Seq<char> {
    match found {
        Some(Some(s)) => s,
        _ => Seq::empty(),
    }
}

/// The outcome of decoding the claims: the claims, or the `Decode` detail.
pub open spec fn id_token_result(t: Seq<char>) -> Result<ClaimsView, Seq<char>> {
    match payload_segment(t) {
        None => Err("id_token does not have 3 dot-separated segments"@),
        Some(seg) => match base64_url_nopad_decode_spec(encode_utf8(seg)) {
            Err(m) => Err("id_token payload base64 decode failed: "@ + m),
            Ok(payload) => match json_pointer_spec(payload, "/tid"@) {
                Err(m) => Err("id_token payload JSON parse failed: "@ + m),
                Ok(tid) => match tid {
                    Some(Some(tid)) => match json_pointer_spec(payload, "/oid"@) {
                        Ok(Some(Some(oid))) => {
                            let pu = json_pointer_spec(payload, "/preferred_username"@);
                            let upn = match pu {
                                Ok(Some(v)) => claim_or_empty(Some(v)),
                                _ => match json_pointer_spec(payload, "/upn"@) {
                                    Ok(found) => claim_or_empty(found),
                                    Err(_) => Seq::empty(),
                                },
                            };
                            let name = match json_pointer_spec(payload, "/name"@) {
                                Ok(found) => claim_or_empty(found),
                                Err(_) => Seq::empty(),
                            };
                            Ok(
                                ClaimsView {
                                    tid,
                                    oid,
                                    upn,
                                    display_name: name,
                                    kind: if tid == CONSUMER_TENANT_ID@ {
                                        AccountKind::Personal
                                    } else {
                                        AccountKind::Business
                                    },
                                },
                            )
                        },
                        _ => Err("id_token missing required claim 'oid'"@),
                    },
                    _ => Err("id_token missing required claim 'tid'"@),
                },
            },
        },
    }
}

fn decode_error(detail: String) -> (e: GraphInternalError)
    ensures
        e@ == (GraphInternalErrorView::Decode { detail: detail@ }),
{
    GraphInternalError::Decode { detail }
}

fn claim_text(found: Result<Option<Option<String>>, String>) -> (s: String)
    ensures
        s@ == match found {
            Ok(Some(Some(v))) => v@,
            _ => Seq::<char>::empty(),
        },
{
    match found {
        Ok(Some(Some(v))) => v,
        _ => String::new(),
    }
}

/// Decodes the `id_token` payload and extracts `tid`, `oid` (required),
/// `preferred_username` (falling back to `upn` only when absent) and `name`
/// (both defaulting to empty), and derives the account kind from `tid`.
pub fn parse(id_token: &str) -> (r: Result<IdTokenClaims, GraphInternalError>)
    ensures
        match id_token_result(id_token@) {
            Ok(v) => r matches Ok(c) && c.tid@ == v.tid && c.oid@ == v.oid && c.upn@ == v.upn
                && c.display_name@ == v.display_name && c.kind == v.kind,
            Err(d) => r matches Err(e) && e@ == (GraphInternalErrorView::Decode { detail: d }),
        },
{
    let c = str_chars(id_token);
    let n = c.len();
    let d1 = find_first(c.as_slice(), 0, n, '.');
    proof {
        assert(c@.subrange(0, n as int) =~= id_token@);
    }
    let d1 = match d1 {
        Some(k) => k,
        None => {
            return Err(decode_error(String::from_str("id_token does not have 3 dot-separated segments")));
        },
    };
    let d2 = find_first(c.as_slice(), d1 + 1, n, '.');
    proof {
        let rest = id_token@.subrange(d1 + 1, id_token@.len() as int);
        assert(rest =~= c@.subrange(d1 + 1, n as int));
    }
    let d2 = match d2 {
        Some(k) => k,
        None => {
            return Err(decode_error(String::from_str("id_token does not have 3 dot-separated segments")));
        },
    };
    proof {
        let rest = id_token@.subrange(d1 + 1, id_token@.len() as int);
        assert(c@.subrange(d1 + 1, d2 as int) =~= rest.take(d2 - d1 - 1));
    }
    let segment = string_of(c.as_slice(), d1 + 1, d2);
    let payload = match base64_url_nopad_decode(segment.as_str().as_bytes()) {
        Ok(b) => b,
        Err(m) => {
            return Err(
                decode_error(String::from_str("id_token payload base64 decode failed: ").concat(m.as_str())),
            );
        },
    };
    let tid = match json_pointer(payload.as_slice(), "/tid") {
        Err(m) => {
            return Err(
                decode_error(String::from_str("id_token payload JSON parse failed: ").concat(m.as_str())),
            );
        },
        Ok(Some(Some(t))) => t,
        Ok(_) => {
            return Err(decode_error(String::from_str("id_token missing required claim 'tid'")));
        },
    };
    let oid = match json_pointer(payload.as_slice(), "/oid") {
        Ok(Some(Some(o))) => o,
        _ => {
            return Err(decode_error(String::from_str("id_token missing required claim 'oid'")));
        },
    };
    let pu = json_pointer(payload.as_slice(), "/preferred_username");
    let upn = match pu {
        Ok(Some(v)) => claim_text(Ok(Some(v))),
        _ => claim_text(json_pointer(payload.as_slice(), "/upn")),
    };
    let display_name = claim_text(json_pointer(payload.as_slice(), "/name"));
    let kind = if str_equal(tid.as_str(), CONSUMER_TENANT_ID) {
        AccountKind::Personal
    } else {
        AccountKind::Business
    };
    Ok(IdTokenClaims { tid, oid, upn, display_name, kind })
}

} // verus!

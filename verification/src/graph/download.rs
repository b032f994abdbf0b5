//! Checking a downloaded body against the hashes Graph reported for it.
//!
//! Personal drives report a hex SHA-1 (compared without regard to ASCII case),
//! business drives a base64 `QuickXorHash` (compared exactly). Either check
//! runs only when its hash is present.

use vstd::prelude::*;

use crate::graph::codec::{base64_standard, base64_standard_spec, sha1_digest, sha1_spec};
use crate::graph::error::{GraphInternalError, GraphInternalErrorView};
use crate::graph::quickxor::{quick_xor_hash, QuickXorHasher};
use crate::graph::status::opt_view;
use crate::protocol::primitives::DriveId;
use crate::protocol::remote::FileHashes;
use crate::text::{
    eq_ignore_ascii_case, eq_ignore_ascii_case_spec, hex_encode, hex_lower_of, str_equal,
};
use crate::urls::GRAPH_BASE;

verus! {

/// The `/content` endpoint of a drive item.
pub open spec fn content_url_spec(drive_id: Seq<char>, item_id: Seq<char>) -> Seq<char> {
    GRAPH_BASE@ + "/drives/"@ + drive_id + "/items/"@ + item_id + "/content"@
}

/// URL that serves the bytes of `item_id` on `drive_id` (Graph answers with a
/// redirect to pre-signed storage).
pub fn content_url(drive_id: &DriveId, item_id: &str) -> (u: String)
    ensures
        u@ == content_url_spec(drive_id.0@, item_id@),
{
    String::from_str(GRAPH_BASE).concat("/drives/").concat(drive_id.as_str()).concat("/items/").concat(
        item_id,
    ).concat("/content")
}

/// Whether the SHA-1 check passes: no hash expected, or the hex digest equals
/// it up to ASCII case.
pub open spec fn sha1_ok(data: Seq<u8>, expected: Option<Seq<char>>) -> bool {
    match expected {
        Some(e) => eq_ignore_ascii_case_spec(hex_lower_of(sha1_spec(data)), e),
        None => true,
    }
}

/// Whether the `QuickXorHash` check passes: no hash expected, or the base64
/// digest equals it exactly.
pub open spec fn qxh_ok(data: Seq<u8>, expected: Option<Seq<char>>) -> bool {
    match expected {
        Some(e) => base64_standard_spec(quick_xor_hash(data)) == e,
        None => true,
    }
}

/// Whether `data` agrees with every hash that `expected` carries.
pub open spec fn download_ok(data: Seq<u8>, expected: Option<FileHashes>) -> bool {
    match expected {
        None => true,
        Some(h) => sha1_ok(data, opt_view(h.sha1_hash)) && qxh_ok(data, opt_view(h.quick_xor_hash)),
    }
}

/// Standard base64 of a 20-byte `QuickXorHash` digest.
pub fn base64_encode_qxh(bytes: [u8; 20]) -> (s: String)
    ensures
        s@ == base64_standard_spec(bytes@),
{
    base64_standard(&bytes)
}

/// The `QuickXorHash` digest of `data`, fed in one piece.
pub fn quick_xor_digest(data: &[u8]) -> (r: [u8; 20])
    requires
        data@.len() <= u64::MAX,
    ensures
        r@ == quick_xor_hash(data@),
{
    let mut h = QuickXorHasher::new();
    h.update(data);
    h.finalize()
}

/// Checks the downloaded `data` against `expected` and hands it back, or
/// fails with `HashMismatch` when a present hash disagrees.
pub fn check_download(data: Vec<u8>, expected: Option<&FileHashes>) -> (r: Result<Vec<u8>, GraphInternalError>)
    requires
        data@.len() <= u64::MAX,
    ensures
        download_ok(data@, match expected { Some(h) => Some(*h), None => None }) ==> r == Ok::<Vec<u8>, GraphInternalError>(data),
        !download_ok(data@, match expected { Some(h) => Some(*h), None => None }) ==> (r matches Err(e) && e@ == GraphInternalErrorView::HashMismatch),
{
    if let Some(hashes) = expected {
        if let Some(expected_sha1) = &hashes.sha1_hash {
            let computed = hex_encode(sha1_digest(data.as_slice()).as_slice());
            if !eq_ignore_ascii_case(computed.as_str(), expected_sha1.as_str()) {
                return Err(GraphInternalError::HashMismatch);
            }
        }
        if let Some(expected_qxh) = &hashes.quick_xor_hash {
            let computed = base64_encode_qxh(quick_xor_digest(data.as_slice()));
            if !str_equal(computed.as_str(), expected_qxh.as_str()) {
                return Err(GraphInternalError::HashMismatch);
            }
        }
    }
    Ok(data)
}

} // verus!

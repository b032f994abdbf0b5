//! PKCE verifier/challenge pairs (RFC 7636, method `S256`).

use vstd::prelude::*;

use crate::graph::codec::{
    base64_url_nopad, base64_url_nopad_spec, nopad_len, random_bytes, sha256_digest, sha256_spec,
    url_safe_char,
};
use vstd::utf8::encode_utf8;

verus! {

/// A PKCE verifier and its challenge.
#[derive(Debug, Clone)]
pub struct PkcePair {
    /// Base64url (unpadded) encoding of 32 random bytes: 43 characters.
    pub verifier: String,
    /// Base64url (unpadded) encoding of the SHA-256 of the verifier's bytes.
    pub challenge: String,
}

/// The `S256` challenge of a verifier: `BASE64URL(SHA256(ASCII(verifier)))`.
pub open spec fn s256_challenge(verifier: Seq<char>) -> Seq<char> {
    base64_url_nopad_spec(sha256_spec(encode_utf8(verifier)))
}

/// The pair derived from `raw`.
pub open spec fn pair_from(raw: Seq<u8>, p: PkcePair) -> bool {
    &&& p.verifier@ == base64_url_nopad_spec(raw)
    &&& p.challenge@ == s256_challenge(p.verifier@)
    &&& p.verifier@.len() == 43
    &&& p.challenge@.len() == 43
    &&& forall|i: int| 0 <= i < p.verifier@.len() ==> url_safe_char(#[trigger] p.verifier@[i])
}

/// The `S256` challenge of `verifier`.
pub fn challenge_for(verifier: &str) -> (c: String)
    ensures
        c@ == s256_challenge(verifier@),
        c@.len() == 43,
{
    let hash = sha256_digest(verifier.as_bytes());
    proof {
        assert(nopad_len(32) == 43);
    }
    base64_url_nopad(hash.as_slice())
}

/// Builds the pair for 32 given bytes (deterministic).
pub fn from_raw_bytes(raw: &[u8; 32]) -> (p: PkcePair)
    ensures
        pair_from(raw@, p),
{
    let verifier = base64_url_nopad(raw.as_slice());
    proof {
        assert(nopad_len(32) == 43);
    }
    let challenge = challenge_for(verifier.as_str());
    PkcePair { verifier, challenge }
}

/// A fresh pair from 32 bytes of the operating system's generator; `None` when
/// the generator fails.
pub fn generate() -> (r: Option<PkcePair>)
    ensures
        r matches Some(p) ==> exists|raw: Seq<u8>| raw.len() == 32 && pair_from(raw, p),
{
    let bytes = match random_bytes(32) {
        Some(b) => b,
        None => {
            return None;
        },
    };
    let mut raw = [0u8; 32];
    for i in 0..32
        invariant
            bytes@.len() == 32,
            raw@.len() == 32,
            forall|j: int| 0 <= j < i ==> raw@[j] == bytes@[j],
    {
        raw[i] = bytes[i];
    }
    let p = from_raw_bytes(&raw);
    proof {
        assert(raw@.len() == 32 && pair_from(raw@, p));
    }
    Some(p)
}

} // verus!

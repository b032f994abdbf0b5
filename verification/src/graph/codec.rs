//! Hashing, base64 and randomness: the calls into `sha1`, `sha2`, `base64` and
//! `getrandom`, each behind one wrapper.

use vstd::prelude::*;

use base64::Engine;
use sha1::Digest;

verus! {

/// SHA-1 digest of `data`, as the `sha1` crate computes it.
pub uninterp spec fn sha1_spec(data: Seq<u8>) -> Seq<u8>;

/// SHA-256 digest of `data`, as the `sha2` crate computes it.
pub uninterp spec fn sha256_spec(data: Seq<u8>) -> Seq<u8>;

/// The standard base64 alphabet (RFC 4648, section 4).
pub open spec fn standard_alphabet() -> Seq<char> {
    "ABCDEFGHIJKLMNOPQRSTUVWXYZabcdefghijklmnopqrstuvwxyz0123456789+/"@
}

/// The URL- and filename-safe base64 alphabet (RFC 4648, section 5).
pub open spec fn url_safe_alphabet() -> Seq<char> {
    "ABCDEFGHIJKLMNOPQRSTUVWXYZabcdefghijklmnopqrstuvwxyz0123456789-_"@
}

/// The characters of one group of one to three bytes, before padding: the
/// bytes read as 6-bit digits, one more digit than there are bytes.
pub open spec fn base64_group(alphabet: Seq<char>, g: Seq<u8>) -> Seq<char> {
    let b0 = g[0];
    let b1: u8 = if g.len() > 1 { g[1] } else { 0 };
    let b2: u8 = if g.len() > 2 { g[2] } else { 0 };
    seq![
        alphabet[(b0 >> 2) as int],
        alphabet[(((b0 & 3) << 4) | (b1 >> 4)) as int],
        alphabet[(((b1 & 15) << 2) | (b2 >> 6)) as int],
        alphabet[(b2 & 63) as int],
    ].take(g.len() + 1int)
}

/// Base64 of `data` over `alphabet`, three bytes at a time; a final partial
/// group is padded with `=` to four characters when `pad` holds.
pub open spec fn base64_encode(alphabet: Seq<char>, data: Seq<u8>, pad: bool) -> Seq<char>
    decreases data.len(),
{
    if data.len() == 0 {
        Seq::empty()
    } else if data.len() < 3 {
        base64_group(alphabet, data) + if pad {
            Seq::new((3 - data.len()) as nat, |i: int| '=')
        } else {
            Seq::empty()
        }
    } else {
        base64_group(alphabet, data.take(3)) + base64_encode(alphabet, data.skip(3), pad)
    }
}

/// Standard-alphabet, padded base64 text of `data`.
pub open spec fn base64_standard_spec(data: Seq<u8>) -> Seq<char> {
    base64_encode(standard_alphabet(), data, true)
}

/// URL-safe-alphabet, unpadded base64 text of `data`.
pub open spec fn base64_url_nopad_spec(data: Seq<u8>) -> Seq<char> {
    base64_encode(url_safe_alphabet(), data, false)
}

/// The definition agrees with examples of RFC 4648 (`Man` is `TWFu`, `M` is
/// `TQ==`) and uses the two alphabets' last digits as specified.
proof fn lemma_base64_examples() {
    reveal_strlit("ABCDEFGHIJKLMNOPQRSTUVWXYZabcdefghijklmnopqrstuvwxyz0123456789+/");
    reveal_strlit("ABCDEFGHIJKLMNOPQRSTUVWXYZabcdefghijklmnopqrstuvwxyz0123456789-_");
    reveal_strlit("+/8=");
    reveal_strlit("-_8");
    reveal_strlit("TWFu");
    reveal_strlit("TQ==");
    let a = seq![0xfbu8, 0xffu8];
    assert(0xfbu8 >> 2 == 62u8) by (bit_vector);
    assert((((0xfbu8 & 3) << 4) | (0xffu8 >> 4)) == 63u8) by (bit_vector);
    assert((((0xffu8 & 15) << 2) | (0u8 >> 6)) == 60u8) by (bit_vector);
    assert(base64_standard_spec(a) =~= "+/8="@);
    assert(base64_url_nopad_spec(a) =~= "-_8"@);
    let m = seq![0x4du8, 0x61u8, 0x6eu8];
    assert(0x4du8 >> 2 == 19u8) by (bit_vector);
    assert((((0x4du8 & 3) << 4) | (0x61u8 >> 4)) == 22u8) by (bit_vector);
    assert((((0x61u8 & 15) << 2) | (0x6eu8 >> 6)) == 5u8) by (bit_vector);
    assert((0x6eu8 & 63) == 46u8) by (bit_vector);
    assert(m.take(3) =~= m);
    assert(m.skip(3) =~= Seq::<u8>::empty());
    assert(base64_encode(standard_alphabet(), m.skip(3), true) =~= Seq::<char>::empty());
    assert(base64_standard_spec(m) =~= "TWFu"@);
    let one = seq![0x4du8];
    assert((((0x4du8 & 3) << 4) | (0u8 >> 4)) == 16u8) by (bit_vector);
    assert(base64_standard_spec(one) =~= "TQ=="@);
}

/// What decoding `text` as URL-safe unpadded base64 yields: the bytes, or the
/// error's `Display` text.
pub uninterp spec fn base64_url_nopad_decode_spec(text: Seq<u8>) -> Result<Seq<u8>, Seq<char>>;

/// Characters of the URL-safe base64 alphabet.
pub open spec fn url_safe_char(c: char) -> bool {
    ('A' <= c <= 'Z') || ('a' <= c <= 'z') || ('0' <= c <= '9') || c == '-' || c == '_'
}

/// Length of unpadded base64 text for `n` input bytes.
pub open spec fn nopad_len(n: nat) -> nat {
    4 * (n / 3) + if n % 3 == 0 {
        0
    } else {
        n % 3 + 1
    }
}

/// `sha1::Sha1::digest`: the 20-byte SHA-1 digest.
/// The contract names the result and states its fixed 20-byte size.
#[verifier::external_body]
pub(crate) fn sha1_digest(data: &[u8]) -> (r: Vec<u8>)
    ensures
        r@ == sha1_spec(data@),
        r@.len() == 20,
{
    sha1::Sha1::digest(data).to_vec()
}

/// `sha2::Sha256::digest`: the 32-byte SHA-256 digest.
/// The contract names the result and states its fixed 32-byte size.
#[verifier::external_body]
pub(crate) fn sha256_digest(data: &[u8]) -> (r: Vec<u8>)
    ensures
        r@ == sha256_spec(data@),
        r@.len() == 32,
{
    sha2::Sha256::digest(data).to_vec()
}

/// `base64::engine::general_purpose::STANDARD.encode`: padded base64 over the
/// standard alphabet ([`base64_standard_spec`]). The encoder panics when the
/// output length overflows `usize`, which `requires` excludes.
#[verifier::external_body]
pub(crate) fn base64_standard(data: &[u8]) -> (r: String)
    requires
        4 * (data@.len() / 3) + 4 <= usize::MAX,
    ensures
        r@ == base64_standard_spec(data@),
{
    base64::engine::general_purpose::STANDARD.encode(data)
}

/// `base64::engine::general_purpose::URL_SAFE_NO_PAD.encode`: unpadded base64
/// over the URL-safe alphabet ([`base64_url_nopad_spec`]); the contract also
/// states its length (`encoded_len` without padding) and that it only uses
/// that alphabet, as the crate's source shows.
#[verifier::external_body]
pub(crate) fn base64_url_nopad(data: &[u8]) -> (r: String)
    requires
        4 * (data@.len() / 3) + 4 <= usize::MAX,
    ensures
        r@ == base64_url_nopad_spec(data@),
        r@.len() == nopad_len(data@.len()),
        forall|i: int| 0 <= i < r@.len() ==> url_safe_char(#[trigger] r@[i]),
{
    base64::engine::general_purpose::URL_SAFE_NO_PAD.encode(data)
}

/// `base64::engine::general_purpose::URL_SAFE_NO_PAD.decode`, with the error
/// rendered by its `Display`. The contract only names the outcome.
#[verifier::external_body]
pub(crate) fn base64_url_nopad_decode(text: &[u8]) -> (r: Result<Vec<u8>, String>)
    ensures
        match r {
            Ok(b) => base64_url_nopad_decode_spec(text@) == Ok::<Seq<u8>, Seq<char>>(b@),
            Err(m) => base64_url_nopad_decode_spec(text@) == Err::<Seq<u8>, Seq<char>>(m@),
        },
{
    match base64::engine::general_purpose::URL_SAFE_NO_PAD.decode(text) {
        Ok(b) => Ok(b),
        Err(e) => Err(e.to_string()),
    }
}

/// `getrandom::getrandom` into a fresh buffer of `n` bytes: `None` when the
/// operating system's generator fails. Of the bytes nothing is stated but
/// their number.
#[verifier::external_body]
pub(crate) fn random_bytes(n: usize) -> (r: Option<Vec<u8>>)
    ensures
        r matches Some(b) ==> b@.len() == n,
{
    let mut buf = vec![0u8; n];
    match getrandom::getrandom(&mut buf) {
        Ok(()) => Some(buf),
        Err(_) => None,
    }
}

} // verus!

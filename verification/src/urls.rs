//! Percent-encoding of path segments and paths for Microsoft Graph URLs.
//!
//! Every byte of the UTF-8 encoding is kept as is when it lies in the RFC 3986
//! unreserved set (`A-Z a-z 0-9 - _ . ~`) and written as `%XX` (upper-case hex)
//! otherwise. `encode_path` additionally keeps `/` separators.

use vstd::prelude::*;

use crate::text::{hex_upper, hex_upper_spec, push_char};
use vstd::string::StringSliceAdditionalSpecFns;

verus! {

/// Root of the Microsoft Graph v1.0 REST API.
pub const GRAPH_BASE: &'static str = "https://graph.microsoft.com/v1.0";

/// RFC 3986 unreserved bytes.
pub open spec fn unreserved(b: u8) -> bool {
    (65 <= b <= 90) || (97 <= b <= 122) || (48 <= b <= 57) || b == 45 || b == 95 || b == 46
        || b == 126
}

/// The encoding of one byte: itself, or `%` and two upper-case hex digits.
pub open spec fn encode_byte(b: u8, keep_slash: bool) -> Seq<char> {
    if unreserved(b) || (keep_slash && b == 47) {
        seq![b as char]
    } else {
        seq!['%', hex_upper_spec(b as int / 16), hex_upper_spec(b as int % 16)]
    }
}

/// The encoding of a byte sequence, byte by byte.
pub open spec fn encode_bytes(bytes: Seq<u8>, keep_slash: bool) -> Seq<char>
    decreases bytes.len(),
{
    if bytes.len() == 0 {
        Seq::empty()
    } else {
        encode_bytes(bytes.drop_last(), keep_slash) + encode_byte(bytes.last(), keep_slash)
    }
}

/// Whether `byte` is in the RFC 3986 unreserved set.
pub fn is_unreserved(byte: u8) -> (r: bool)
    ensures
        r == unreserved(byte),
{
    (65 <= byte && byte <= 90) || (97 <= byte && byte <= 122) || (48 <= byte && byte <= 57)
        || byte == 45 || byte == 95 || byte == 46 || byte == 126
}

fn encode_with(s: &str, keep_slash: bool) -> (out: String)
    ensures
        out@ == encode_bytes(s.spec_bytes(), keep_slash),
{
    let bytes = s.as_bytes();
    let mut out = String::new();
    let n = bytes.len();
    for i in 0..n
        invariant
            n == bytes@.len(),
            bytes@ == s.spec_bytes(),
            out@ == encode_bytes(bytes@.take(i as int), keep_slash),
    {
        let b = bytes[i];
        proof {
            assert(bytes@.take(i + 1).drop_last() == bytes@.take(i as int));
        }
        if is_unreserved(b) || (keep_slash && b == 47) {
            push_char(&mut out, b as char);
        } else {
            push_char(&mut out, '%');
            push_char(&mut out, hex_upper(b / 16));
            push_char(&mut out, hex_upper(b % 16));
        }
    }
    proof {
        assert(bytes@.take(n as int) == bytes@);
    }
    out
}

/// Percent-encodes a single path segment: every byte of its UTF-8 encoding
/// outside the unreserved set (including `/`) becomes `%XX`.
pub fn encode_segment(s: &str) -> (out: String)
    ensures
        out@ == encode_bytes(s.spec_bytes(), false),
{
    encode_with(s, false)
}

/// Percent-encodes a `/`-separated path: every segment is encoded as by
/// [`encode_segment`] and the `/` separators are kept.
pub fn encode_path(s: &str) -> (out: String)
    ensures
        out@ == encode_bytes(s.spec_bytes(), true),
{
    encode_with(s, true)
}

} // verus!

verus! {

proof fn lemma_encode_concat(a: Seq<u8>, b: Seq<u8>, keep_slash: bool)
    ensures
        encode_bytes(a + b, keep_slash) == encode_bytes(a, keep_slash) + encode_bytes(b, keep_slash),
    decreases b.len(),
{
    if b.len() == 0 {
        assert(a + b =~= a);
        assert(encode_bytes(a, keep_slash) + encode_bytes(b, keep_slash) =~= encode_bytes(a, keep_slash));
    } else {
        lemma_encode_concat(a, b.drop_last(), keep_slash);
        assert((a + b).drop_last() =~= a + b.drop_last());
        assert((a + b).last() == b.last());
        assert(encode_bytes(a, keep_slash) + encode_bytes(b.drop_last(), keep_slash) + encode_byte(
            b.last(),
            keep_slash,
        ) =~= encode_bytes(a, keep_slash) + (encode_bytes(b.drop_last(), keep_slash) + encode_byte(
            b.last(),
            keep_slash,
        )));
    }
}

/// Without `/` bytes, encoding as a path and as a segment agree.
pub proof fn law_path_without_slash_is_segment(b: Seq<u8>)
    requires
        forall|i: int| 0 <= i < b.len() ==> b[i] != 47,
    ensures
        encode_bytes(b, true) == encode_bytes(b, false),
    decreases b.len(),
{
    if b.len() > 0 {
        law_path_without_slash_is_segment(b.drop_last());
        assert(b.last() == b[b.len() - 1]);
    }
}

/// An encoded segment never contains `/`, so it cannot add a path level.
pub proof fn law_segment_has_no_slash(b: Seq<u8>)
    ensures
        forall|i: int| 0 <= i < encode_bytes(b, false).len() ==> encode_bytes(b, false)[i] != '/',
    decreases b.len(),
{
    if b.len() > 0 {
        law_segment_has_no_slash(b.drop_last());
        let x = b.last();
        let e = encode_byte(x, false);
        assert forall|i: int| 0 <= i < e.len() implies e[i] != '/' by {
            if unreserved(x) {
                assert(e[0] == x as char);
            } else {
                assert(hex_upper_spec(x as int / 16) != '/');
                assert(hex_upper_spec(x as int % 16) != '/');
            }
        }
        let p = encode_bytes(b.drop_last(), false);
        assert(encode_bytes(b, false) == p + e);
        assert forall|i: int| 0 <= i < (p + e).len() implies (p + e)[i] != '/' by {
            if i < p.len() {
                assert((p + e)[i] == p[i]);
            } else {
                assert((p + e)[i] == e[i - p.len()]);
            }
        }
    }
}

/// Encoding a path splits at its first `/`: the first segment is encoded as a
/// segment, the separator is kept, and the rest is encoded as a path.
pub proof fn law_path_splits_at_slash(first: Seq<u8>, rest: Seq<u8>)
    requires
        forall|i: int| 0 <= i < first.len() ==> first[i] != 47,
    ensures
        encode_bytes(first + seq![47u8] + rest, true) == encode_bytes(first, false) + seq!['/']
            + encode_bytes(rest, true),
{
    lemma_encode_concat(first + seq![47u8], rest, true);
    lemma_encode_concat(first, seq![47u8], true);
    law_path_without_slash_is_segment(first);
    let one = seq![47u8];
    assert(one.drop_last() =~= Seq::<u8>::empty());
    assert(one.last() == 47u8);
    assert((47u8 as char) == '/');
    assert(encode_byte(47u8, true) == seq!['/']);
    assert(encode_bytes(one, true) == encode_bytes(one.drop_last(), true) + encode_byte(47u8, true));
    assert(encode_bytes(one, true) =~= seq!['/']);
}

} // verus!

verus! {

/// The number of bytes outside the unreserved set.
pub open spec fn reserved_count(b: Seq<u8>) -> nat
    decreases b.len(),
{
    if b.len() == 0 {
        0
    } else {
        reserved_count(b.drop_last()) + if unreserved(b.last()) {
            0nat
        } else {
            1nat
        }
    }
}

/// The bytes read as characters one for one.
pub open spec fn as_chars(b: Seq<u8>) -> Seq<char> {
    b.map_values(|x: u8| x as char)
}

/// Every reserved byte becomes three characters, every other byte one.
pub proof fn law_segment_length(b: Seq<u8>)
    ensures
        encode_bytes(b, false).len() == b.len() + 2 * reserved_count(b),
    decreases b.len(),
{
    if b.len() > 0 {
        law_segment_length(b.drop_last());
    }
}

proof fn lemma_reserved_count_zero(b: Seq<u8>)
    ensures
        reserved_count(b) == 0 <==> forall|i: int| 0 <= i < b.len() ==> unreserved(#[trigger] b[i]),
    decreases b.len(),
{
    if b.len() > 0 {
        lemma_reserved_count_zero(b.drop_last());
        if reserved_count(b) == 0 {
            assert forall|i: int| 0 <= i < b.len() implies unreserved(#[trigger] b[i]) by {
                if i < b.len() - 1 {
                    assert(b.drop_last()[i] == b[i]);
                }
            }
        }
        if forall|i: int| 0 <= i < b.len() ==> unreserved(#[trigger] b[i]) {
            assert forall|i: int| 0 <= i < b.drop_last().len() implies unreserved(#[trigger] b.drop_last()[i]) by {
                assert(b.drop_last()[i] == b[i]);
            }
            assert(unreserved(b[b.len() - 1]));
        }
    }
}

/// Encoding leaves a segment as it is exactly when every byte is unreserved.
pub proof fn law_segment_unchanged_iff_unreserved(b: Seq<u8>)
    ensures
        (encode_bytes(b, false) == as_chars(b)) <==> (forall|i: int| 0 <= i < b.len() ==> unreserved(#[trigger] b[i])),
    decreases b.len(),
{
    law_segment_length(b);
    lemma_reserved_count_zero(b);
    if forall|i: int| 0 <= i < b.len() ==> unreserved(#[trigger] b[i]) {
        lemma_unreserved_unchanged(b);
    }
}

proof fn lemma_unreserved_unchanged(b: Seq<u8>)
    requires
        forall|i: int| 0 <= i < b.len() ==> unreserved(#[trigger] b[i]),
    ensures
        encode_bytes(b, false) == as_chars(b),
    decreases b.len(),
{
    if b.len() > 0 {
        assert forall|i: int| 0 <= i < b.drop_last().len() implies unreserved(#[trigger] b.drop_last()[i]) by {
            assert(b.drop_last()[i] == b[i]);
        }
        lemma_unreserved_unchanged(b.drop_last());
        assert(unreserved(b[b.len() - 1]));
        assert(as_chars(b) =~= as_chars(b.drop_last()).push(b.last() as char));
        assert(encode_bytes(b, false) =~= encode_bytes(b.drop_last(), false) + seq![b.last() as char]);
    }
}

/// The value of a hexadecimal digit character (either case).
pub open spec fn hex_char_value(c: char) -> Option<u8> {
    if '0' <= c <= '9' {
        Some(((c as u32) - 48) as u8)
    } else if 'A' <= c <= 'F' {
        Some(((c as u32) - 55) as u8)
    } else if 'a' <= c <= 'f' {
        Some(((c as u32) - 87) as u8)
    } else {
        None
    }
}

/// Percent-decoding: `%` and two hex digits give the byte they denote; any
/// other character gives its low byte.
pub open spec fn percent_decode(c: Seq<char>) -> Seq<u8>
    decreases c.len(),
{
    if c.len() == 0 {
        Seq::empty()
    } else if c[0] == '%' && c.len() >= 3 && hex_char_value(c[1]) is Some && hex_char_value(c[2]) is Some {
        seq![(hex_char_value(c[1])->0 * 16 + hex_char_value(c[2])->0) as u8] + percent_decode(c.skip(3))
    } else {
        seq![c[0] as u8] + percent_decode(c.skip(1))
    }
}

proof fn lemma_encode_front(b: Seq<u8>, keep_slash: bool)
    requires
        b.len() > 0,
    ensures
        encode_bytes(b, keep_slash) == encode_byte(b[0], keep_slash) + encode_bytes(b.drop_first(), keep_slash),
{
    let one = seq![b[0]];
    assert(one + b.drop_first() =~= b);
    lemma_encode_concat(one, b.drop_first(), keep_slash);
    assert(one.drop_last() =~= Seq::<u8>::empty());
    assert(one.last() == b[0]);
    assert(encode_bytes(one.drop_last(), keep_slash) =~= Seq::<char>::empty());
    assert(encode_bytes(one, keep_slash) == encode_bytes(one.drop_last(), keep_slash) + encode_byte(
        one.last(),
        keep_slash,
    ));
    assert(encode_bytes(one, keep_slash) =~= encode_byte(b[0], keep_slash));
}

proof fn lemma_hex_upper_value(n: int)
    requires
        0 <= n < 16,
    ensures
        hex_char_value(hex_upper_spec(n)) == Some(n as u8),
        hex_upper_spec(n) != '%',
{
}

proof fn lemma_decode_byte(x: u8, keep_slash: bool, r: Seq<char>)
    ensures
        percent_decode(encode_byte(x, keep_slash) + r) == seq![x] + percent_decode(r),
{
    let e = encode_byte(x, keep_slash);
    let c = e + r;
    if unreserved(x) || (keep_slash && x == 47) {
        assert(c[0] == x as char);
        assert((x as char) != '%');
        assert(c.skip(1) =~= r);
        assert((x as char) as u8 == x);
    } else {
        let hi = x as int / 16;
        let lo = x as int % 16;
        lemma_hex_upper_value(hi);
        lemma_hex_upper_value(lo);
        assert(c[0] == '%' && c[1] == hex_upper_spec(hi) && c[2] == hex_upper_spec(lo));
        assert(c.skip(3) =~= r);
        assert(hi * 16 + lo == x);
    }
}

/// Decoding an encoded segment or path gives back its bytes.
pub proof fn law_percent_decode_round_trip(b: Seq<u8>, keep_slash: bool)
    ensures
        percent_decode(encode_bytes(b, keep_slash)) == b,
    decreases b.len(),
{
    if b.len() == 0 {
        assert(encode_bytes(b, keep_slash) =~= Seq::<char>::empty());
    } else {
        lemma_encode_front(b, keep_slash);
        law_percent_decode_round_trip(b.drop_first(), keep_slash);
        lemma_decode_byte(b[0], keep_slash, encode_bytes(b.drop_first(), keep_slash));
        assert(seq![b[0]] + b.drop_first() =~= b);
    }
}

/// A path split at every `/`, each segment encoded, joined again with `/`.
pub open spec fn encode_segments_joined(b: Seq<u8>) -> Seq<char>
    decreases b.len(),
{
    if exists|i: int| 0 <= i < b.len() && b[i] == 47 {
        let k = choose|i: int| 0 <= i < b.len() && b[i] == 47 && forall|j: int| 0 <= j < i ==> b[j] != 47;
        if 0 <= k < b.len() {
            encode_bytes(b.take(k), false) + seq!['/'] + encode_segments_joined(b.skip(k + 1))
        } else {
            Seq::empty()
        }
    } else {
        encode_bytes(b, false)
    }
}

proof fn lemma_first_slash_exists(b: Seq<u8>)
    requires
        exists|i: int| 0 <= i < b.len() && b[i] == 47,
    ensures
        exists|k: int| 0 <= k < b.len() && b[k] == 47 && forall|j: int| 0 <= j < k ==> b[j] != 47,
    decreases b.len(),
{
    if b[0] == 47 {
        assert(0 <= 0 < b.len() && b[0] == 47 && forall|j: int| 0 <= j < 0 ==> b[j] != 47);
    } else {
        let t = b.drop_first();
        let i = choose|i: int| 0 <= i < b.len() && b[i] == 47;
        assert(t[i - 1] == 47);
        lemma_first_slash_exists(t);
        let k = choose|k: int| 0 <= k < t.len() && t[k] == 47 && forall|j: int| 0 <= j < k ==> t[j] != 47;
        assert forall|j: int| 0 <= j < k + 1 implies b[j] != 47 by {
            if j > 0 {
                assert(b[j] == t[j - 1]);
            }
        }
        assert(b[k + 1] == t[k]);
    }
}

/// Encoding a path is splitting it at every `/`, encoding each segment, and
/// joining the results with `/`: separators (leading and trailing ones
/// included) are kept and the empty path stays empty.
pub proof fn law_path_is_joined_segments(b: Seq<u8>)
    ensures
        encode_bytes(b, true) == encode_segments_joined(b),
    decreases b.len(),
{
    if exists|i: int| 0 <= i < b.len() && b[i] == 47 {
        lemma_first_slash_exists(b);
        let k = choose|i: int| 0 <= i < b.len() && b[i] == 47 && forall|j: int| 0 <= j < i ==> b[j] != 47;
        let first = b.take(k);
        let rest = b.skip(k + 1);
        assert(first + seq![47u8] + rest =~= b);
        assert forall|i: int| 0 <= i < first.len() implies first[i] != 47 by {}
        law_path_splits_at_slash(first, rest);
        law_path_is_joined_segments(rest);
    } else {
        law_path_without_slash_is_segment(b);
    }
}

} // verus!

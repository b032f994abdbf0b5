//! Primitive newtypes: timestamps, content hashes and opaque Graph strings.

use vstd::prelude::*;

use crate::text::{ascii_lower, hex_encode, hex_lower_of, hex_lower_spec};
use vstd::string::StringSliceAdditionalSpecFns;
use vstd::utf8::{encode_utf8, is_ascii_chars, is_ascii_chars_encode_utf8};

verus! {

/// A UTC instant: whole seconds since the Unix epoch and the sub-second nanoseconds.
#[derive(Clone, Copy, Debug, PartialEq, Eq, Structural, Hash, PartialOrd, Ord)]
pub struct Timestamp {
    pub unix_seconds: i64,
    pub subsec_nanos: u32,
}

impl Timestamp {
    /// Builds a timestamp from its parts.
    pub fn from_unix(unix_seconds: i64, subsec_nanos: u32) -> (t: Timestamp)
        ensures
            t.unix_seconds == unix_seconds,
            t.subsec_nanos == subsec_nanos,
    {
        Timestamp { unix_seconds, subsec_nanos }
    }
}

/// BLAKE3 content digest: 32 bytes, written as 64 lower-case hex characters.
#[derive(Clone, Copy, Debug, PartialEq, Eq, Hash)]
pub struct ContentHash(pub [u8; 32]);

/// Errors returned when parsing a [`ContentHash`] from hex text.
#[derive(Debug, PartialEq, Eq)]
pub enum ContentHashParseError {
    /// The input was not exactly 64 bytes long.
    WrongLength { got: usize },
    /// A non-hex byte was found at this index.
    NonHex { index: usize },
}

/// Value of a hex digit byte, if it is one.
pub open spec fn nibble_spec(b: u8) -> Option<u8> {
    if 48 <= b <= 57 {
        Some((b - 48) as u8)
    } else if 97 <= b <= 102 {
        Some((b - 87) as u8)
    } else if 65 <= b <= 70 {
        Some((b - 55) as u8)
    } else {
        None
    }
}

/// Decodes one hexadecimal digit (either case).
pub fn decode_nibble(b: u8) -> (r: Result<u8, ()>)
    ensures
        match nibble_spec(b) {
            Some(v) => r == Ok::<u8, ()>(v),
            None => r is Err,
        },
{
    if 48 <= b && b <= 57 {
        Ok(b - 48)
    } else if 97 <= b && b <= 102 {
        Ok(b - 87)
    } else if 65 <= b && b <= 70 {
        Ok(b - 55)
    } else {
        Err(())
    }
}

/// Index of the first byte of `b` that is not a hex digit, if any.
pub open spec fn first_non_hex(b: Seq<u8>) -> Option<int> {
    if exists|i: int| 0 <= i < b.len() && nibble_spec(#[trigger] b[i]) is None {
        Some(choose|i: int| 0 <= i < b.len() && nibble_spec(#[trigger] b[i]) is None
            && forall|j: int| 0 <= j < i ==> nibble_spec(#[trigger] b[j]) is Some)
    } else {
        None
    }
}

/// The 32 bytes a 64-digit hex string denotes.
pub open spec fn hex_bytes(b: Seq<u8>) -> Seq<u8> {
    Seq::new(32, |i: int| (nibble_spec(b[2 * i])->0 * 16 + nibble_spec(b[2 * i + 1])->0) as u8)
}

impl ContentHash {
    /// Wraps a raw 32-byte digest.
    pub fn from_bytes(bytes: [u8; 32]) -> (h: ContentHash)
        ensures
            h.0@ == bytes@,
    {
        ContentHash(bytes)
    }

    /// The raw 32-byte digest.
    pub fn as_bytes(&self) -> (b: &[u8; 32])
        ensures
            b@ == self.0@,
    {
        &self.0
    }

    /// Parses 64 hex digits (either case): a wrong length is reported first,
    /// then the index of the first non-hex byte.
    pub fn parse(s: &str) -> (r: Result<ContentHash, ContentHashParseError>)
        ensures
            s.spec_bytes().len() != 64 ==> r == Err::<ContentHash, ContentHashParseError>(
                ContentHashParseError::WrongLength { got: s.spec_bytes().len() as usize },
            ),
            s.spec_bytes().len() == 64 ==> match first_non_hex(s.spec_bytes()) {
                Some(i) => r == Err::<ContentHash, ContentHashParseError>(
                    ContentHashParseError::NonHex { index: i as usize },
                ),
                None => r matches Ok(h) && h.0@ == hex_bytes(s.spec_bytes()),
            },
    {
        let b = s.as_bytes();
        if b.len() != 64 {
            return Err(ContentHashParseError::WrongLength { got: b.len() });
        }
        let mut out = [0u8; 32];
        for i in 0..32
            invariant
                b@.len() == 64,
                b@ == s.spec_bytes(),
                out@.len() == 32,
                forall|j: int| 0 <= j < 2 * i ==> nibble_spec(#[trigger] b@[j]) is Some,
                forall|j: int| 0 <= j < i ==> out@[j] == #[trigger] hex_bytes(b@)[j],
        {
            let hi = match decode_nibble(b[2 * i]) {
                Ok(v) => v,
                Err(()) => {
                    proof {
                        lemma_first_non_hex(b@, 2 * i as int);
                    }
                    return Err(ContentHashParseError::NonHex { index: i * 2 });
                },
            };
            let lo = match decode_nibble(b[2 * i + 1]) {
                Ok(v) => v,
                Err(()) => {
                    proof {
                        lemma_first_non_hex(b@, 2 * i + 1);
                    }
                    return Err(ContentHashParseError::NonHex { index: i * 2 + 1 });
                },
            };
            out[i] = hi * 16 + lo;
        }
        proof {
            assert(out@ =~= hex_bytes(b@));
            assert forall|i: int| 0 <= i < b@.len() implies nibble_spec(#[trigger] b@[i]) is Some by {}
        }
        Ok(ContentHash(out))
    }

    /// The digest as 64 lower-case hex characters.
    pub fn to_string(&self) -> (s: String)
        ensures
            s@ == hex_lower_of(self.0@),
    {
        hex_encode(&self.0)
    }
}

proof fn lemma_first_non_hex(b: Seq<u8>, k: int)
    requires
        0 <= k < b.len(),
        nibble_spec(b[k]) is None,
        forall|j: int| 0 <= j < k ==> nibble_spec(#[trigger] b[j]) is Some,
    ensures
        first_non_hex(b) == Some(k),
{
    let c = choose|i: int| 0 <= i < b.len() && nibble_spec(#[trigger] b[i]) is None
        && forall|j: int| 0 <= j < i ==> nibble_spec(#[trigger] b[j]) is Some;
    assert(0 <= c < b.len() && nibble_spec(b[c]) is None && forall|j: int| 0 <= j < c ==> nibble_spec(#[trigger] b[j]) is Some);
    if c < k {
        assert(nibble_spec(b[c]) is Some);
    }
    if c > k {
        assert(nibble_spec(b[k]) is Some);
    }
}

/// `OneDrive` ETag/cTag value (opaque).
#[derive(Clone, Debug, PartialEq, Eq, Hash)]
pub struct ETag(pub String);

/// `OneDrive` driveItem id (opaque).
#[derive(Clone, Debug, PartialEq, Eq, Hash)]
pub struct DriveItemId(pub String);

/// `OneDrive` drive id (opaque).
#[derive(Clone, Debug, PartialEq, Eq, Hash)]
pub struct DriveId(pub String);

/// Opaque cursor token returned by Microsoft Graph `/delta`.
#[derive(Clone, Debug, PartialEq, Eq, Hash)]
pub struct DeltaCursor(pub String);

/// Pointer into the macOS Keychain for a refresh-token entry.
#[derive(Clone, Debug, PartialEq, Eq, Hash)]
pub struct KeychainRef(pub String);

impl ETag {
    /// Wraps the given text.
    pub fn new(s: &str) -> (r: Self)
        ensures
            r.0@ == s@,
    {
        ETag(String::from_str(s))
    }

    /// The wrapped text.
    pub fn as_str(&self) -> (r: &str)
        ensures
            r@ == self.0@,
    {
        self.0.as_str()
    }
}

impl DriveItemId {
    /// Wraps the given text.
    pub fn new(s: &str) -> (r: Self)
        ensures
            r.0@ == s@,
    {
        DriveItemId(String::from_str(s))
    }

    /// The wrapped text.
    pub fn as_str(&self) -> (r: &str)
        ensures
            r@ == self.0@,
    {
        self.0.as_str()
    }
}

impl DriveId {
    /// Wraps the given text.
    pub fn new(s: &str) -> (r: Self)
        ensures
            r.0@ == s@,
    {
        DriveId(String::from_str(s))
    }

    /// The wrapped text.
    pub fn as_str(&self) -> (r: &str)
        ensures
            r@ == self.0@,
    {
        self.0.as_str()
    }
}

impl DeltaCursor {
    /// Wraps the given text.
    pub fn new(s: &str) -> (r: Self)
        ensures
            r.0@ == s@,
    {
        DeltaCursor(String::from_str(s))
    }

    /// The wrapped text.
    pub fn as_str(&self) -> (r: &str)
        ensures
            r@ == self.0@,
    {
        self.0.as_str()
    }
}

impl KeychainRef {
    /// Wraps the given text.
    pub fn new(s: &str) -> (r: Self)
        ensures
            r.0@ == s@,
    {
        KeychainRef(String::from_str(s))
    }

    /// The wrapped text.
    pub fn as_str(&self) -> (r: &str)
        ensures
            r@ == self.0@,
    {
        self.0.as_str()
    }
}

} // verus!

verus! {

proof fn lemma_hex_digit_nibble(n: int)
    requires
        0 <= n < 16,
    ensures
        '\0' <= hex_lower_spec(n) <= '\u{7f}',
        nibble_spec(hex_lower_spec(n) as u8) == Some(n as u8),
{
}

/// Writing a digest as hex and parsing the text back gives the same digest:
/// the text is 64 bytes of hex digits that denote the digest's bytes.
pub proof fn law_content_hash_round_trip(h: Seq<u8>)
    requires
        h.len() == 32,
    ensures
        encode_utf8(hex_lower_of(h)).len() == 64,
        first_non_hex(encode_utf8(hex_lower_of(h))) is None,
        hex_bytes(encode_utf8(hex_lower_of(h))) == h,
{
    let t = hex_lower_of(h);
    assert forall|k: int| 0 <= k < t.len() implies '\0' <= #[trigger] t[k] <= '\u{7f}' by {
        lemma_hex_digit_nibble(h[k / 2] as int / 16);
        lemma_hex_digit_nibble(h[k / 2] as int % 16);
    }
    assert(is_ascii_chars(t));
    is_ascii_chars_encode_utf8(t);
    let b = encode_utf8(t);
    assert forall|k: int| 0 <= k < b.len() implies nibble_spec(#[trigger] b[k]) == Some(
        (if k % 2 == 0 { h[k / 2] as int / 16 } else { h[k / 2] as int % 16 }) as u8,
    ) by {
        assert(t[k] as u8 == b[k]);
        lemma_hex_digit_nibble(h[k / 2] as int / 16);
        lemma_hex_digit_nibble(h[k / 2] as int % 16);
    }
    assert(!(exists|i: int| 0 <= i < b.len() && nibble_spec(#[trigger] b[i]) is None));
    assert forall|i: int| 0 <= i < 32 implies #[trigger] hex_bytes(b)[i] == h[i] by {
        assert(nibble_spec(b[2 * i]) == Some((h[i] as int / 16) as u8));
        assert(nibble_spec(b[2 * i + 1]) == Some((h[i] as int % 16) as u8));
        assert((2 * i) / 2 == i);
        assert((2 * i + 1) / 2 == i);
    }
    assert(hex_bytes(b) =~= h);
}

} // verus!

verus! {

impl core::str::FromStr for ContentHash {
    type Err = ContentHashParseError;

    /// As [`ContentHash::parse`].
    fn from_str(s: &str) -> (r: Result<ContentHash, ContentHashParseError>)
        ensures
            s.spec_bytes().len() != 64 ==> r == Err::<ContentHash, ContentHashParseError>(
                ContentHashParseError::WrongLength { got: s.spec_bytes().len() as usize },
            ),
            s.spec_bytes().len() == 64 ==> match first_non_hex(s.spec_bytes()) {
                Some(i) => r == Err::<ContentHash, ContentHashParseError>(
                    ContentHashParseError::NonHex { index: i as usize },
                ),
                None => r matches Ok(h) && h.0@ == hex_bytes(s.spec_bytes()),
            },
    {
        ContentHash::parse(s)
    }
}

} // verus!

verus! {

proof fn lemma_nibble_prints_lower(c: u8)
    requires
        nibble_spec(c) is Some,
    ensures
        hex_lower_spec(nibble_spec(c)->0 as int) == ascii_lower(c as char),
{
}

/// A parsed hash prints as its input with ASCII letters lower-cased.
pub proof fn law_parsed_hash_prints_lowercased(b: Seq<u8>)
    requires
        b.len() == 64,
        first_non_hex(b) is None,
    ensures
        hex_lower_of(hex_bytes(b)) == b.map_values(|x: u8| ascii_lower(x as char)),
{
    let h = hex_bytes(b);
    assert forall|i: int| 0 <= i < b.len() implies nibble_spec(#[trigger] b[i]) is Some by {
        if nibble_spec(b[i]) is None {
            assert(exists|j: int| 0 <= j < b.len() && nibble_spec(#[trigger] b[j]) is None);
        }
    }
    assert forall|k: int| 0 <= k < 64 implies #[trigger] hex_lower_of(h)[k] == ascii_lower(b[k] as char) by {
        let i = k / 2;
        let hi = nibble_spec(b[2 * i])->0;
        let lo = nibble_spec(b[2 * i + 1])->0;
        assert(h[i] == (hi * 16 + lo) as u8);
        assert(h[i] as int / 16 == hi);
        assert(h[i] as int % 16 == lo);
        lemma_nibble_prints_lower(b[2 * i]);
        lemma_nibble_prints_lower(b[2 * i + 1]);
    }
    assert(hex_lower_of(h) =~= b.map_values(|x: u8| ascii_lower(x as char)));
}

} // verus!

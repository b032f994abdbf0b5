//! Typed identifiers of the form `<prefix>_<ulid>`.

use vstd::prelude::*;

use crate::text::{push_char, str_chars, str_equal};
use core::marker::PhantomData;

verus! {

/// A typed-prefix tag for [`Id`].
pub trait IdPrefix {
    /// The prefix text.
    spec fn prefix_spec() -> Seq<char>;

    /// The literal prefix, without the trailing underscore.
    fn prefix() -> (p: &'static str)
        ensures
            p@ == Self::prefix_spec(),
    ;
}

/// Tag of sync-pair identifiers (`pair_…`).
#[derive(Debug)]
pub struct PairTag;

/// Tag of account identifiers (`acct_…`).
#[derive(Debug)]
pub struct AccountTag;

/// Tag of file-operation identifiers (`op_…`).
#[derive(Debug)]
pub struct FileOpTag;

impl IdPrefix for PairTag {
    open spec fn prefix_spec() -> Seq<char> {
        "pair"@
    }

    fn prefix() -> (p: &'static str) {
        "pair"
    }
}

impl IdPrefix for AccountTag {
    open spec fn prefix_spec() -> Seq<char> {
        "acct"@
    }

    fn prefix() -> (p: &'static str) {
        "acct"
    }
}

impl IdPrefix for FileOpTag {
    open spec fn prefix_spec() -> Seq<char> {
        "op"@
    }

    fn prefix() -> (p: &'static str) {
        "op"
    }
}

/// Identifier of a sync pair.
pub type PairId = Id<PairTag>;

/// Identifier of an account.
pub type AccountId = Id<AccountTag>;

/// Identifier of a file operation.
pub type FileOpId = Id<FileOpTag>;

/// The decoding error of the `ulid` crate.
#[verifier::external_type_specification]
#[verifier::external_body]
pub struct ExDecodeError(ulid::DecodeError);

/// The Crockford base32 alphabet `ulid` writes with.
pub open spec fn crockford_alphabet() -> Seq<char> {
    "0123456789ABCDEFGHJKMNPQRSTVWXYZ"@
}

/// The same alphabet in lower case, which `ulid` reads as well.
pub open spec fn crockford_lower_alphabet() -> Seq<char> {
    "0123456789abcdefghjkmnpqrstvwxyz"@
}

/// The digit `ulid` reads a character of a ULID body as: its place in the
/// alphabet, a lower-case letter counting as its upper-case form; `None` for
/// any other character.
pub open spec fn crockford_value(c: char) -> Option<int> {
    match crockford_alphabet().index_of_first(c) {
        Some(k) => Some(k),
        None => crockford_lower_alphabet().index_of_first(c),
    }
}

/// The number `ulid` accumulates from the digits of `text`: starting from
/// zero, each digit shifts the number five bits up and fills the freed bits;
/// bits shifted past the 128th are lost.
pub open spec fn ulid_accumulate(text: Seq<char>) -> u128
    decreases text.len(),
{
    if text.len() == 0 {
        0
    } else {
        (ulid_accumulate(text.drop_last()) << 5u128) | ((crockford_value(text.last())->0) as u128)
    }
}

/// What `ulid::Ulid::from_string` yields for `text`: the number its 26 digits
/// spell, or `None` when the text is not 26 alphabet characters. (`from_string`
/// counts bytes; a text of 26 bytes but not 26 characters holds a byte outside
/// its table, so the outcome is the same.)
pub open spec fn ulid_decode_spec(text: Seq<char>) -> Option<u128> {
    if text.len() == 26 && forall|i: int| 0 <= i < 26 ==> (#[trigger] crockford_value(text[i])) is Some {
        Some(ulid_accumulate(text))
    } else {
        None
    }
}

/// The 26-character text `ulid::Ulid` writes for `value`: the `j`-th character
/// is the alphabet's digit for the five bits of `value` that sit
/// `5 * (25 - j)` bits up.
pub open spec fn ulid_encode_spec(value: u128) -> Seq<char> {
    Seq::new(26, |j: int| crockford_alphabet()[((value >> ((5 * (25 - j)) as u128)) & 31u128) as int])
}

/// `ulid::Ulid::from_string`: decodes a 26-character Crockford base32 body
/// with the crate's lookup table (`base32::decode`), as [`ulid_decode_spec`] states.
#[verifier::external_body]
fn ulid_decode(text: &str) -> (r: Result<u128, ulid::DecodeError>)
    ensures
        match r {
            Ok(v) => ulid_decode_spec(text@) == Some(v),
            Err(_) => ulid_decode_spec(text@) is None,
        },
{
    ulid::Ulid::from_string(text).map(|u| u.0)
}

/// `ulid::Ulid::to_string`: the Crockford base32 text of a value, written
/// digit by digit from the lowest five bits up (`base32::encode_to_array`),
/// as [`ulid_encode_spec`] states.
#[verifier::external_body]
fn ulid_encode(value: u128) -> (r: String)
    ensures
        r@ == ulid_encode_spec(value),
{
    ulid::Ulid(value).to_string()
}

/// Each alphabet character is read back as its place in the alphabet, and
/// no alphabet character is `_`.
pub proof fn lemma_alphabet_digit(k: int)
    requires
        0 <= k < 32,
    ensures
        crockford_value(crockford_alphabet()[k]) == Some(k),
        crockford_alphabet().contains(crockford_alphabet()[k]),
        crockford_alphabet()[k] != '_',
{
    reveal_strlit("0123456789ABCDEFGHJKMNPQRSTVWXYZ");
    crockford_alphabet().index_of_first_ensures(crockford_alphabet()[k]);
}

/// A character that `ulid` reads as a digit is read as a number below 32, and
/// an upper-case alphabet character is that digit's character.
pub proof fn lemma_value_in_alphabet(c: char)
    requires
        crockford_value(c) is Some,
    ensures
        0 <= crockford_value(c)->0 < 32,
        crockford_alphabet().contains(c) ==> crockford_alphabet()[crockford_value(c)->0] == c,
{
    reveal_strlit("0123456789ABCDEFGHJKMNPQRSTVWXYZ");
    reveal_strlit("0123456789abcdefghjkmnpqrstvwxyz");
    crockford_alphabet().index_of_first_ensures(c);
    crockford_lower_alphabet().index_of_first_ensures(c);
}

/// A body as `ulid` writes it: 26 upper-case alphabet characters, the first
/// below `8`, since the top digit carries only the three highest bits.
pub open spec fn canonical_ulid_body(body: Seq<char>) -> bool {
    &&& body.len() == 26
    &&& forall|i: int| 0 <= i < 26 ==> crockford_alphabet().contains(#[trigger] body[i])
    &&& crockford_value(body[0])->0 < 8
}

proof fn lemma_shift_in_next_digit(v: u128, k: u128, k5: u128)
    by (bit_vector)
    requires
        k <= 120,
        k5 == k + 5,
    ensures
        ((v >> k5) << 5u128) | ((v >> k) & 31u128) == v >> k,
{
}

proof fn lemma_top_digit(v: u128)
    by (bit_vector)
    ensures
        (v >> 125u128) & 31u128 == v >> 125u128,
        (v >> 125u128) < 8,
        (0u128 << 5u128) | (v >> 125u128) == v >> 125u128,
        v >> 0u128 == v,
{
}

proof fn lemma_digit_bound(v: u128, k: u128)
    by (bit_vector)
    ensures
        (v >> k) & 31u128 < 32,
{
}

proof fn lemma_shift_past_digit(a: u128, d: u128, b: u128, s: u128, s5: u128)
    by (bit_vector)
    requires
        d < 32,
        b <= 123,
        a < (1u128 << b),
        s <= 120,
        s5 == s + 5,
    ensures
        (((a << 5u128) | d) >> 0u128) & 31u128 == d,
        ((a << 5u128) | d) >> s5 == a >> s,
{
}

proof fn lemma_bound_grows(a: u128, d: u128, b: u128, b5: u128)
    by (bit_vector)
    requires
        d < 32,
        b <= 122,
        b5 == b + 5,
        a < (1u128 << b),
    ensures
        ((a << 5u128) | d) < (1u128 << b5),
{
}

proof fn lemma_first_digit(d: u128)
    by (bit_vector)
    requires
        d < 8,
    ensures
        ((0u128 << 5u128) | d) < (1u128 << 3u128),
        (((0u128 << 5u128) | d) >> 0u128) & 31u128 == d,
{
}

/// The first `n` characters of the text of `v` accumulate to the bits of `v`
/// above the digits not yet read.
proof fn lemma_accumulate_encoded(v: u128, n: int)
    requires
        1 <= n <= 26,
    ensures
        ulid_accumulate(ulid_encode_spec(v).take(n)) == v >> ((5 * (26 - n)) as u128),
    decreases n,
{
    let e = ulid_encode_spec(v);
    let t = e.take(n);
    let k = (5 * (26 - n)) as u128;
    let d = (v >> k) & 31u128;
    lemma_digit_bound(v, k);
    lemma_alphabet_digit(d as int);
    assert(t.last() == e[n - 1]);
    assert(e[n - 1] == crockford_alphabet()[d as int]);
    assert(crockford_value(t.last())->0 == d as int);
    if n == 1 {
        assert(t.drop_last() =~= Seq::<char>::empty());
        assert(ulid_accumulate(t.drop_last()) == 0);
        lemma_top_digit(v);
        assert(k == 125u128);
        assert(ulid_accumulate(t) == (0u128 << 5u128) | d);
    } else {
        lemma_accumulate_encoded(v, n - 1);
        assert(t.drop_last() =~= e.take(n - 1));
        let k5 = (5 * (27 - n)) as u128;
        lemma_shift_in_next_digit(v, k, k5);
        assert(ulid_accumulate(t) == ((v >> k5) << 5u128) | d);
    }
}

/// The text `ulid` writes for a value is a canonical body that reads back as
/// the value.
pub proof fn lemma_encode_decodes(v: u128)
    ensures
        canonical_ulid_body(ulid_encode_spec(v)),
        ulid_decode_spec(ulid_encode_spec(v)) == Some(v),
{
    let e = ulid_encode_spec(v);
    assert forall|i: int| 0 <= i < 26 implies crockford_alphabet().contains(#[trigger] e[i])
        && crockford_value(e[i]) is Some by {
        let k = (5 * (25 - i)) as u128;
        let d = ((v >> k) & 31u128) as int;
        lemma_digit_bound(v, k);
        lemma_alphabet_digit(d);
        assert(e[i] == crockford_alphabet()[d]);
    }
    lemma_top_digit(v);
    lemma_alphabet_digit(((v >> 125u128) & 31u128) as int);
    lemma_accumulate_encoded(v, 26);
    assert(e.take(26) =~= e);
}

/// The first `n` digits of a canonical body accumulate, without loss, to a
/// number below `2^(5n - 2)` whose five-bit groups are those digits.
proof fn lemma_accumulate_canonical(body: Seq<char>, n: int)
    requires
        canonical_ulid_body(body),
        1 <= n <= 26,
    ensures
        n <= 25 ==> ulid_accumulate(body.take(n)) < (1u128 << ((5 * n - 2) as u128)),
        forall|j: int|
            0 <= j < n ==> (ulid_accumulate(body.take(n)) >> ((5 * (n - 1 - j)) as u128)) & 31u128
                == ((#[trigger] crockford_value(body[j]))->0) as u128,
    decreases n,
{
    let t = body.take(n);
    let c = body[n - 1];
    assert(crockford_alphabet().contains(c));
    lemma_value_in_alphabet_contains(c);
    lemma_value_in_alphabet(c);
    let d = (crockford_value(c)->0) as u128;
    assert(t.last() == c);
    if n == 1 {
        assert(t.drop_last() =~= Seq::<char>::empty());
        assert(ulid_accumulate(t.drop_last()) == 0);
        lemma_first_digit(d);
        assert(ulid_accumulate(t) == (0u128 << 5u128) | d);
    } else {
        lemma_accumulate_canonical(body, n - 1);
        assert(t.drop_last() =~= body.take(n - 1));
        let a = ulid_accumulate(body.take(n - 1));
        let b = (5 * (n - 1) - 2) as u128;
        assert(ulid_accumulate(t) == (a << 5u128) | d);
        assert forall|j: int| 0 <= j < n implies (ulid_accumulate(t) >> ((5 * (n - 1 - j)) as u128))
            & 31u128 == ((#[trigger] crockford_value(body[j]))->0) as u128 by {
            if j < n - 1 {
                let s = (5 * (n - 2 - j)) as u128;
                lemma_shift_past_digit(a, d, b, s, (s + 5) as u128);
                assert(((5 * (n - 1 - j)) as u128) == (s + 5) as u128);
            } else {
                lemma_shift_past_digit(a, d, b, 0, 5);
            }
        }
        if n <= 25 {
            lemma_bound_grows(a, d, b, (b + 5) as u128);
        }
    }
}

/// A character of the alphabet is read as some digit.
proof fn lemma_value_in_alphabet_contains(c: char)
    requires
        crockford_alphabet().contains(c),
    ensures
        crockford_value(c) is Some,
{
    crockford_alphabet().index_of_first_ensures(c);
}

/// A canonical body reads as a value whose text is the body itself.
pub proof fn law_canonical_body_prints_back(body: Seq<char>)
    requires
        canonical_ulid_body(body),
    ensures
        ulid_decode_spec(body) matches Some(v) && ulid_encode_spec(v) == body,
{
    assert forall|i: int| 0 <= i < 26 implies (#[trigger] crockford_value(body[i])) is Some by {
        lemma_value_in_alphabet_contains(body[i]);
    }
    lemma_accumulate_canonical(body, 26);
    assert(body.take(26) =~= body);
    let v = ulid_accumulate(body);
    let e = ulid_encode_spec(v);
    assert forall|j: int| 0 <= j < 26 implies e[j] == body[j] by {
        let c = body[j];
        lemma_value_in_alphabet_contains(c);
        lemma_value_in_alphabet(c);
        assert((v >> ((5 * (25 - j)) as u128)) & 31u128 == (crockford_value(c)->0) as u128);
    }
    assert(e =~= body);
}

/// A `<prefix>_<ulid>` identifier with a type-level prefix.
#[derive(Debug)]
pub struct Id<T: IdPrefix> {
    ulid: u128,
    marker: PhantomData<T>,
}

impl<T: IdPrefix> Clone for Id<T> {
    fn clone(&self) -> (r: Self)
        ensures
            r == *self,
    {
        Id { ulid: self.ulid, marker: PhantomData }
    }
}

impl<T: IdPrefix> Copy for Id<T> {

}

/// Errors returned when parsing an [`Id`].
#[derive(Debug)]
pub enum IdParseError {
    /// There is no `_` between prefix and body.
    MissingSeparator,
    /// The prefix differs from the expected one.
    WrongPrefix { got: String, expected: &'static str },
    /// The body is not a valid ULID.
    MalformedUlid { source: ulid::DecodeError },
}

/// Index of the first `_` in `s`, if any.
pub open spec fn first_underscore(s: Seq<char>) -> Option<int> {
    s.index_of_first('_')
}

impl<T: IdPrefix> Id<T> {
    /// The ULID value.
    pub closed spec fn value(&self) -> u128 {
        self.ulid
    }

    /// Builds an identifier from a ULID value.
    pub fn from_ulid(ulid: u128) -> (r: Self)
        ensures
            r.value() == ulid,
    {
        Id { ulid, marker: PhantomData }
    }

    /// The ULID value.
    pub fn ulid(&self) -> (r: u128)
        ensures
            r == self.value(),
    {
        self.ulid
    }

    /// `<prefix>_<ulid>`.
    pub fn to_string(&self) -> (s: String)
        ensures
            s@ == T::prefix_spec() + seq!['_'] + ulid_encode_spec(self.value()),
            canonical_ulid_body(ulid_encode_spec(self.value())),
            ulid_decode_spec(ulid_encode_spec(self.value())) == Some(self.value()),
    {
        proof {
            lemma_encode_decodes(self.ulid);
        }
        let p = T::prefix();
        let mut s = String::from_str(p);
        push_char(&mut s, '_');
        let body = ulid_encode(self.ulid);
        let s = s.concat(body.as_str());
        proof {
            assert(s@ =~= p@ + seq!['_'] + ulid_encode_spec(self.ulid));
        }
        s
    }

    /// Parses `<prefix>_<ulid>`: the text up to the first `_` must equal the
    /// type's prefix and the rest must decode as a ULID.
    pub fn parse(s: &str) -> (r: Result<Self, IdParseError>)
        ensures
            first_underscore(s@) is None ==> r matches Err(IdParseError::MissingSeparator),
            first_underscore(s@) matches Some(k) ==> {
                let body = s@.subrange(k + 1, s@.len() as int);
                match r {
                    Ok(id) => s@.take(k) == T::prefix_spec() && ulid_decode_spec(body) == Some(
                        id.value(),
                    ),
                    Err(IdParseError::WrongPrefix { got, expected }) => got@ == s@.take(k) && got@
                        != T::prefix_spec() && expected@ == T::prefix_spec(),
                    Err(IdParseError::MalformedUlid { .. }) => s@.take(k) == T::prefix_spec()
                        && ulid_decode_spec(body) is None,
                    Err(IdParseError::MissingSeparator) => false,
                }
            },
    {
        let c = str_chars(s);
        let n = c.len();
        let mut k: usize = 0;
        while k < n && c[k] != '_'
            invariant
                k <= n,
                n == c@.len(),
                c@ == s@,
                forall|j: int| 0 <= j < k ==> c@[j] != '_',
            decreases n - k,
        {
            k = k + 1;
        }
        proof {
            s@.index_of_first_ensures('_');
            if k < n {
                assert(s@.contains('_'));
            } else {
                if s@.contains('_') {
                    let j = choose|j: int| 0 <= j < s@.len() && s@[j] == '_';
                    assert(c@[j] == '_');
                }
            }
        }
        if k == n {
            return Err(IdParseError::MissingSeparator);
        }
        let mut prefix = String::new();
        let mut body = String::new();
        for j in 0..k
            invariant
                k < n,
                n == c@.len(),
                prefix@ == c@.take(j as int),
        {
            push_char(&mut prefix, c[j]);
            proof {
                assert(c@.take(j + 1) =~= c@.take(j as int).push(c@[j as int]));
            }
        }
        for j in k + 1..n
            invariant
                k < n,
                n == c@.len(),
                body@ == c@.subrange(k + 1, j as int),
        {
            push_char(&mut body, c[j]);
            proof {
                assert(c@.subrange(k + 1, j + 1) =~= c@.subrange(k + 1, j as int).push(c@[j as int]));
            }
        }
        let expected = T::prefix();
        if !str_equal(prefix.as_str(), expected) {
            return Err(IdParseError::WrongPrefix { got: prefix, expected });
        }
        match ulid_decode(body.as_str()) {
            Ok(v) => Ok(Id { ulid: v, marker: PhantomData }),
            Err(e) => Err(IdParseError::MalformedUlid { source: e }),
        }
    }
}

/// Writing an id and parsing the text back gives the same id: the first `_`
/// is the one after the prefix, and the body decodes to the ULID value.
pub proof fn law_id_round_trip(prefix: Seq<char>, body: Seq<char>, value: u128)
    requires
        forall|i: int| 0 <= i < prefix.len() ==> prefix[i] != '_',
        ulid_decode_spec(body) == Some(value),
    ensures
        first_underscore(prefix + seq!['_'] + body) == Some(prefix.len() as int),
        (prefix + seq!['_'] + body).take(prefix.len() as int) == prefix,
        ulid_decode_spec(
            (prefix + seq!['_'] + body).subrange(prefix.len() + 1int, (prefix + seq!['_'] + body).len() as int),
        ) == Some(value),
{
    let s = prefix + seq!['_'] + body;
    let k = prefix.len() as int;
    assert(s[k] == '_');
    s.index_of_first_ensures('_');
    let f = s.index_of_first('_');
    assert(s.contains('_'));
    let j = f->0;
    if j < k {
        assert(s[j] == prefix[j]);
    }
    assert(s.take(k) =~= prefix);
    assert(s.subrange(k + 1, s.len() as int) =~= body);
}

/// The text of an id with a canonical body parses to a value that prints back
/// as the same text: the first `_` ends the prefix, the body decodes to a
/// value, and the prefix, `_` and that value's text make up the text again.
pub proof fn law_canonical_id_prints_back(prefix: Seq<char>, body: Seq<char>)
    requires
        forall|i: int| 0 <= i < prefix.len() ==> prefix[i] != '_',
        canonical_ulid_body(body),
    ensures
        ({
            let s = prefix + seq!['_'] + body;
            &&& first_underscore(s) == Some(prefix.len() as int)
            &&& s.take(prefix.len() as int) == prefix
            &&& ulid_decode_spec(s.subrange(prefix.len() + 1int, s.len() as int)) matches Some(v)
                && prefix + seq!['_'] + ulid_encode_spec(v) == s
        }),
{
    law_canonical_body_prints_back(body);
    let v = ulid_decode_spec(body)->0;
    law_id_round_trip(prefix, body, v);
}

impl<T: IdPrefix> core::str::FromStr for Id<T> {
    type Err = IdParseError;

    /// As [`Id::parse`].
    fn from_str(s: &str) -> (r: Result<Id<T>, IdParseError>)
        ensures
            first_underscore(s@) is None ==> r matches Err(IdParseError::MissingSeparator),
            first_underscore(s@) matches Some(k) ==> {
                let body = s@.subrange(k + 1, s@.len() as int);
                match r {
                    Ok(id) => s@.take(k) == T::prefix_spec() && ulid_decode_spec(body) == Some(
                        id.value(),
                    ),
                    Err(IdParseError::WrongPrefix { got, expected }) => got@ == s@.take(k) && got@
                        != T::prefix_spec() && expected@ == T::prefix_spec(),
                    Err(IdParseError::MalformedUlid { .. }) => s@.take(k) == T::prefix_spec()
                        && ulid_decode_spec(body) is None,
                    Err(IdParseError::MissingSeparator) => false,
                }
            },
    {
        Id::<T>::parse(s)
    }
}

} // verus!

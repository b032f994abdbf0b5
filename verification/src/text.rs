//! Small string-building helpers shared by the encoders and parsers.

use vstd::prelude::*;
use vstd::utf8::{encode_scalar, encode_utf8};

verus! {

/// Appends `c` to `s` (`String::push`).
///
/// The standard library documents `push` as appending the given `char` to the
/// end of the string; that is all this contract claims.
#[verifier::external_body]
pub(crate) fn push_char(s: &mut String, c: char)
    ensures
        final(s)@ == old(s)@.push(c),
{
    s.push(c);
}

/// The upper-case hexadecimal digit for `n` (`0..=15`).
pub open spec fn hex_upper_spec(n: int) -> char {
    if n < 10 {
        (n + 48) as char
    } else {
        (n + 55) as char
    }
}

/// The lower-case hexadecimal digit for `n` (`0..=15`).
pub open spec fn hex_lower_spec(n: int) -> char {
    if n < 10 {
        (n + 48) as char
    } else {
        (n + 87) as char
    }
}

/// Upper-case hexadecimal digit of a nibble.
pub fn hex_upper(n: u8) -> (c: char)
    requires
        n < 16,
    ensures
        c == hex_upper_spec(n as int),
{
    if n < 10 {
        (n + 48) as char
    } else {
        (n + 55) as char
    }
}

/// Lower-case hexadecimal digit of a nibble.
pub fn hex_lower(n: u8) -> (c: char)
    requires
        n < 16,
    ensures
        c == hex_lower_spec(n as int),
{
    if n < 10 {
        (n + 48) as char
    } else {
        (n + 87) as char
    }
}

} // verus!

verus! {

/// The characters of `s`, in order.
pub fn str_chars(s: &str) -> (v: Vec<char>)
    ensures
        v@ == s@,
{
    let mut v: Vec<char> = Vec::new();
    for c in it: s.chars()
        invariant
            it.seq() == s@,
            v@ == it.seq().take(it.index() as int),
    {
        v.push(c);
    }
    v
}

} // verus!

verus! {

/// The decimal digit character for `d` (`0..=9`).
pub open spec fn digit_char(d: int) -> char {
    (d + 48) as char
}

/// Decimal representation of `n`, most significant digit first, no leading zeros.
pub open spec fn decimal(n: nat) -> Seq<char>
    decreases n,
{
    if n < 10 {
        seq![digit_char(n as int)]
    } else {
        decimal(n / 10).push(digit_char((n % 10) as int))
    }
}

/// Appends the decimal representation of `n` to `out`.
pub fn push_decimal(out: &mut String, n: u64)
    ensures
        final(out)@ == old(out)@ + decimal(n as nat),
    decreases n,
{
    if n >= 10 {
        push_decimal(out, n / 10);
    }
    let d = (n % 10) as u8;
    push_char(out, (d + 48) as char);
    proof {
        assert(old(out)@ + decimal(n as nat) =~= (old(out)@ + (if n >= 10 {
            decimal((n / 10) as nat)
        } else {
            Seq::<char>::empty()
        })).push(digit_char((n % 10) as int)));
    }
}

/// The decimal representation of `n` (as `u64`'s `Display` writes it).
pub fn u64_to_string(n: u64) -> (s: String)
    ensures
        s@ == decimal(n as nat),
{
    let mut s = String::new();
    push_decimal(&mut s, n);
    s
}

/// ASCII decimal digit byte.
pub open spec fn is_digit_byte(b: u8) -> bool {
    48 <= b <= 57
}

/// The value of a sequence of ASCII digits.
pub open spec fn digits_value(b: Seq<u8>) -> nat
    decreases b.len(),
{
    if b.len() == 0 {
        0
    } else {
        digits_value(b.drop_last()) * 10 + (b.last() - 48) as nat
    }
}

/// The bytes after an optional leading `+`.
pub open spec fn unsigned_body(b: Seq<u8>) -> Seq<u8> {
    if b.len() > 0 && b[0] == 43 {
        b.drop_first()
    } else {
        b
    }
}

/// What `u64`'s `FromStr` yields for `b`: an optional `+`, then one or more ASCII
/// digits whose value fits in a `u64`; anything else is an error (`None`).
pub open spec fn parse_u64_spec(b: Seq<u8>) -> Option<u64> {
    let body = unsigned_body(b);
    if body.len() > 0 && (forall|i: int| 0 <= i < body.len() ==> is_digit_byte(#[trigger] body[i]))
        && digits_value(body) <= u64::MAX {
        Some(digits_value(body) as u64)
    } else {
        None
    }
}

proof fn lemma_digits_value_prefix_bound(b: Seq<u8>, i: int)
    requires
        0 <= i <= b.len(),
        forall|k: int| 0 <= k < b.len() ==> is_digit_byte(#[trigger] b[k]),
    ensures
        digits_value(b.take(i)) <= digits_value(b),
    decreases b.len() - i,
{
    if i < b.len() {
        lemma_digits_value_prefix_bound(b, i + 1);
        assert(b.take(i + 1).drop_last() =~= b.take(i));
    } else {
        assert(b.take(i) =~= b);
    }
}

/// Parses an unsigned decimal integer as `u64::from_str` does.
pub fn parse_u64(b: &[u8]) -> (r: Option<u64>)
    ensures
        r == parse_u64_spec(b@),
{
    let n = b.len();
    let start: usize = if n > 0 && b[0] == 43 { 1 } else { 0 };
    let ghost body = unsigned_body(b@);
    proof {
        assert(body =~= b@.subrange(start as int, n as int));
    }
    if start >= n {
        return None;
    }
    let mut acc: u64 = 0;
    let mut i = start;
    while i < n
        invariant
            start <= i <= n,
            n == b@.len(),
            body =~= b@.subrange(start as int, n as int),
            body == unsigned_body(b@),
            forall|k: int| start <= k < i ==> is_digit_byte(#[trigger] b@[k]),
            acc as nat == digits_value(body.take(i - start)),
        decreases n - i,
    {
        let c = b[i];
        if c < 48 || c > 57 {
            proof {
                let j = i - start;
                assert(0 <= j < body.len());
                assert(body[j] == c);
                assert(!is_digit_byte(body[j]));
                assert(unsigned_body(b@) == body);
                assert(parse_u64_spec(b@) is None);
            }
            return None;
        }
        proof {
            assert(body.take(i - start + 1).drop_last() =~= body.take(i - start));
        }
        let d = (c - 48) as u64;
        if acc > (u64::MAX - d) / 10 {
            proof {
                assert(acc * 10 + d > u64::MAX) by (nonlinear_arith)
                    requires acc > (u64::MAX - d) / 10, d <= 9;
                assert(body.take(i - start + 1).last() == c);
                assert(digits_value(body.take(i - start + 1)) == acc * 10 + d);
                if forall|k: int| 0 <= k < body.len() ==> is_digit_byte(#[trigger] body[k]) {
                    lemma_digits_value_prefix_bound(body, i - start + 1);
                    assert(digits_value(body) > u64::MAX);
                }
                assert(unsigned_body(b@) == body);
                assert(parse_u64_spec(b@) is None);
            }
            return None;
        }
        proof {
            assert(acc * 10 + d <= u64::MAX) by (nonlinear_arith)
                requires acc <= (u64::MAX - d) / 10, d <= 9;
            assert(body.take(i - start + 1).last() == c);
        }
        acc = acc * 10 + d;
        i = i + 1;
    }
    proof {
        assert(body.take(n - start) =~= body);
    }
    Some(acc)
}

} // verus!

verus! {

/// Whether two character sequences are equal.
pub fn chars_equal(a: &[char], b: &[char]) -> (r: bool)
    ensures
        r == (a@ == b@),
{
    if a.len() != b.len() {
        return false;
    }
    let n = a.len();
    for i in 0..n
        invariant
            n == a@.len(),
            n == b@.len(),
            forall|k: int| 0 <= k < i ==> a@[k] == b@[k],
    {
        if a[i] != b[i] {
            return false;
        }
    }
    proof {
        assert(a@ =~= b@);
    }
    true
}

/// Whether two strings hold the same characters.
pub fn str_equal(a: &str, b: &str) -> (r: bool)
    ensures
        r == (a@ == b@),
{
    let va = str_chars(a);
    let vb = str_chars(b);
    chars_equal(va.as_slice(), vb.as_slice())
}

} // verus!

verus! {

/// Position of the first `ch` in `c[lo..hi]`, as an absolute index.
pub fn find_first(c: &[char], lo: usize, hi: usize, ch: char) -> (r: Option<usize>)
    requires
        lo <= hi <= c@.len(),
    ensures
        match c@.subrange(lo as int, hi as int).index_of_first(ch) {
            Some(i) => 0 <= i < hi - lo && r == Some((lo + i) as usize),
            None => r is None,
        },
        r matches Some(k) ==> lo <= k < hi && c@[k as int] == ch,
{
    let ghost sub = c@.subrange(lo as int, hi as int);
    let mut j = lo;
    while j < hi
        invariant
            lo <= j <= hi <= c@.len(),
            sub == c@.subrange(lo as int, hi as int),
            forall|k: int| lo <= k < j ==> c@[k] != ch,
        decreases hi - j,
    {
        if c[j] == ch {
            proof {
                sub.index_of_first_ensures(ch);
                assert(sub[j - lo] == ch);
                assert(sub.contains(ch));
                let f = sub.index_of_first(ch)->0;
                assert(sub[f] == c@[lo + f]);
                if f < j - lo {
                    assert(c@[lo + f] != ch);
                }
            }
            return Some(j);
        }
        j = j + 1;
    }
    proof {
        sub.index_of_first_ensures(ch);
        if sub.contains(ch) {
            let f = sub.index_of_first(ch)->0;
            assert(sub[f] == c@[lo + f]);
        }
    }
    None
}

/// Position of the last `ch` in `c[lo..hi]`, as an absolute index.
pub fn find_last(c: &[char], lo: usize, hi: usize, ch: char) -> (r: Option<usize>)
    requires
        lo <= hi <= c@.len(),
    ensures
        match c@.subrange(lo as int, hi as int).index_of_last(ch) {
            Some(i) => 0 <= i < hi - lo && r == Some((lo + i) as usize),
            None => r is None,
        },
        r matches Some(k) ==> lo <= k < hi && c@[k as int] == ch,
{
    let ghost sub = c@.subrange(lo as int, hi as int);
    let mut j = hi;
    while j > lo
        invariant
            lo <= j <= hi <= c@.len(),
            sub == c@.subrange(lo as int, hi as int),
            forall|k: int| j <= k < hi ==> c@[k] != ch,
        decreases j - lo,
    {
        if c[j - 1] == ch {
            proof {
                sub.index_of_last_ensures(ch);
                assert(sub[j - 1 - lo] == ch);
                assert(sub.contains(ch));
                let f = sub.index_of_last(ch)->0;
                assert(sub[f] == c@[lo + f]);
                if f > j - 1 - lo {
                    assert(c@[lo + f] != ch);
                }
            }
            return Some(j - 1);
        }
        j = j - 1;
    }
    proof {
        sub.index_of_last_ensures(ch);
        if sub.contains(ch) {
            let f = sub.index_of_last(ch)->0;
            assert(sub[f] == c@[lo + f]);
        }
    }
    None
}

/// The characters `c[lo..hi]` as a `String`.
pub fn string_of(c: &[char], lo: usize, hi: usize) -> (s: String)
    requires
        lo <= hi <= c@.len(),
    ensures
        s@ == c@.subrange(lo as int, hi as int),
{
    let mut s = String::new();
    for j in lo..hi
        invariant
            lo <= hi <= c@.len(),
            s@ == c@.subrange(lo as int, j as int),
    {
        push_char(&mut s, c[j]);
        proof {
            assert(c@.subrange(lo as int, j + 1) =~= c@.subrange(lo as int, j as int).push(c@[j as int]));
        }
    }
    s
}

/// Whether `c[lo..hi]` equals `word`.
pub fn range_equals(c: &[char], lo: usize, hi: usize, word: &[char]) -> (r: bool)
    requires
        lo <= hi <= c@.len(),
    ensures
        r == (c@.subrange(lo as int, hi as int) == word@),
{
    if hi - lo != word.len() {
        return false;
    }
    let n = word.len();
    for j in 0..n
        invariant
            n == word@.len(),
            hi - lo == n,
            lo <= hi <= c@.len(),
            forall|k: int| 0 <= k < j ==> c@[lo + k] == word@[k],
    {
        if c[lo + j] != word[j] {
            proof {
                assert(c@.subrange(lo as int, hi as int)[j as int] != word@[j as int]);
            }
            return false;
        }
    }
    proof {
        assert(c@.subrange(lo as int, hi as int) =~= word@);
    }
    true
}

} // verus!

verus! {

/// The lower-case hex text of `bytes`, two digits per byte.
pub open spec fn hex_lower_of(bytes: Seq<u8>) -> Seq<char> {
    Seq::new(
        2 * bytes.len(),
        |k: int|
            if k % 2 == 0 {
                hex_lower_spec(bytes[k / 2] as int / 16)
            } else {
                hex_lower_spec(bytes[k / 2] as int % 16)
            },
    )
}

/// Lower-case hex text of `bytes` (`{b:02x}` for each byte).
pub fn hex_encode(bytes: &[u8]) -> (s: String)
    ensures
        s@ == hex_lower_of(bytes@),
{
    let mut s = String::new();
    let n = bytes.len();
    for i in 0..n
        invariant
            n == bytes@.len(),
            s@ == hex_lower_of(bytes@.take(i as int)),
    {
        let byte = bytes[i];
        push_char(&mut s, hex_lower(byte / 16));
        push_char(&mut s, hex_lower(byte % 16));
        proof {
            assert(hex_lower_of(bytes@.take(i + 1)) =~= hex_lower_of(bytes@.take(i as int)).push(
                hex_lower_spec(byte as int / 16),
            ).push(hex_lower_spec(byte as int % 16)));
        }
    }
    proof {
        assert(bytes@.take(n as int) =~= bytes@);
    }
    s
}

/// ASCII lower-casing of one character; other characters are unchanged.
pub open spec fn ascii_lower(c: char) -> char {
    if 'A' <= c <= 'Z' {
        ((c as u32) + 32) as char
    } else {
        c
    }
}

/// Equality up to ASCII case (`str::eq_ignore_ascii_case`).
pub open spec fn eq_ignore_ascii_case_spec(a: Seq<char>, b: Seq<char>) -> bool {
    a.len() == b.len() && forall|i: int| 0 <= i < a.len() ==> ascii_lower(#[trigger] a[i]) == ascii_lower(b[i])
}

fn to_ascii_lower(c: char) -> (r: char)
    ensures
        r == ascii_lower(c),
{
    if 'A' <= c && c <= 'Z' {
        let v: u32 = (c as u32) + 32;
        proof {
            assert(97 <= v <= 122);
        }
        char_from_ascii(v)
    } else {
        c
    }
}

fn char_from_ascii(v: u32) -> (c: char)
    requires
        v < 128,
    ensures
        c == v as char,
{
    let b: u8 = v as u8;
    b as char
}

/// Whether `a` and `b` are equal up to ASCII case.
pub fn eq_ignore_ascii_case(a: &str, b: &str) -> (r: bool)
    ensures
        r == eq_ignore_ascii_case_spec(a@, b@),
{
    let va = str_chars(a);
    let vb = str_chars(b);
    if va.len() != vb.len() {
        return false;
    }
    let n = va.len();
    for i in 0..n
        invariant
            n == va@.len(),
            n == vb@.len(),
            va@ == a@,
            vb@ == b@,
            forall|k: int| 0 <= k < i ==> ascii_lower(#[trigger] va@[k]) == ascii_lower(vb@[k]),
    {
        if to_ascii_lower(va[i]) != to_ascii_lower(vb[i]) {
            return false;
        }
    }
    true
}

} // verus!

verus! {

proof fn lemma_encode_utf8_concat(a: Seq<char>, b: Seq<char>)
    ensures
        encode_utf8(a + b) == encode_utf8(a) + encode_utf8(b),
    decreases a.len(),
{
    if a.len() == 0 {
        assert(a + b =~= b);
        assert(encode_utf8(a) =~= Seq::<u8>::empty());
        assert(encode_utf8(a) + encode_utf8(b) =~= encode_utf8(b));
    } else {
        assert((a + b).drop_first() =~= a.drop_first() + b);
        assert((a + b)[0] == a[0]);
        lemma_encode_utf8_concat(a.drop_first(), b);
        assert(encode_scalar(a[0] as u32) + (encode_utf8(a.drop_first()) + encode_utf8(b)) =~= (encode_scalar(
            a[0] as u32,
        ) + encode_utf8(a.drop_first())) + encode_utf8(b));
    }
}

proof fn lemma_encode_digit(d: int)
    requires
        0 <= d < 10,
    ensures
        encode_utf8(seq![digit_char(d)]) == seq![(d + 48) as u8],
{
    let c = digit_char(d);
    let s: u32 = c as u32;
    assert(s == d + 48);
    assert(s & 0x7F == s) by (bit_vector)
        requires
            s <= 0x7F,
    ;
    assert(seq![c].drop_first() =~= Seq::<char>::empty());
    assert(encode_utf8(seq![c].drop_first()) =~= Seq::<u8>::empty());
    assert(encode_scalar(s) =~= seq![(d + 48) as u8]);
    assert(encode_utf8(seq![c]) =~= encode_scalar(s) + Seq::<u8>::empty());
}

/// The UTF-8 bytes of a decimal numeral are its ASCII digits, and they denote
/// the number.
proof fn lemma_decimal_bytes(n: nat)
    ensures
        encode_utf8(decimal(n)).len() > 0,
        forall|i: int| 0 <= i < encode_utf8(decimal(n)).len() ==> is_digit_byte(#[trigger] encode_utf8(decimal(n))[i]),
        digits_value(encode_utf8(decimal(n))) == n,
    decreases n,
{
    if n < 10 {
        lemma_encode_digit(n as int);
        let b = encode_utf8(decimal(n));
        assert(decimal(n) == seq![digit_char(n as int)]);
        assert(b == seq![(n + 48) as u8]);
        assert(b.drop_last() =~= Seq::<u8>::empty());
        assert(b.last() == (n + 48) as u8);
        assert(digits_value(b) == digits_value(b.drop_last()) * 10 + (b.last() - 48) as nat);
    } else {
        let q = n / 10;
        let r = (n % 10) as int;
        lemma_decimal_bytes(q);
        lemma_encode_digit(r);
        assert(decimal(n) =~= decimal(q) + seq![digit_char(r)]);
        lemma_encode_utf8_concat(decimal(q), seq![digit_char(r)]);
        let bq = encode_utf8(decimal(q));
        let b = encode_utf8(decimal(n));
        assert(b =~= bq.push((r + 48) as u8));
        assert(b.drop_last() =~= bq);
        assert(b.last() == (r + 48) as u8);
        assert(digits_value(b) == digits_value(bq) * 10 + r);
        assert(n == q * 10 + r);
    }
}

/// Parsing the decimal text of `n` gives back `n`.
pub proof fn lemma_parse_decimal(n: u64)
    ensures
        parse_u64_spec(encode_utf8(decimal(n as nat))) == Some(n),
{
    lemma_decimal_bytes(n as nat);
    let b = encode_utf8(decimal(n as nat));
    assert(is_digit_byte(b[0]));
    assert(unsigned_body(b) == b);
}

} // verus!

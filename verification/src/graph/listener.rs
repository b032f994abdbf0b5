//! Parsing of the OAuth redirect that the loopback listener receives:
//! `GET /callback?code=…&state=… HTTP/1.1`.

use vstd::prelude::*;

use crate::graph::error::{GraphInternalError, GraphInternalErrorView};
use crate::text::{find_first, find_last, push_char, range_equals, str_chars, str_equal, string_of};
use vstd::string::StringSliceAdditionalSpecFns;
use vstd::utf8::encode_utf8;

verus! {

/// Unicode `White_Space`, as `char::is_whitespace` decides it.
pub open spec fn is_ws(c: char) -> bool {
    let u = c as u32;
    (9 <= u <= 13) || u == 32 || u == 0x85 || u == 0xA0 || u == 0x1680 || (0x2000 <= u <= 0x200A)
        || u == 0x2028 || u == 0x2029 || u == 0x202F || u == 0x205F || u == 0x3000
}

fn char_is_ws(c: char) -> (r: bool)
    ensures
        r == is_ws(c),
{
    let u = c as u32;
    (9 <= u && u <= 13) || u == 32 || u == 0x85 || u == 0xA0 || u == 0x1680 || (0x2000 <= u && u
        <= 0x200A) || u == 0x2028 || u == 0x2029 || u == 0x202F || u == 0x205F || u == 0x3000
}

/// The first line, as `str::lines` yields it: up to the first `\n`, without
/// a `\r` just before it; `None` for an empty request.
pub open spec fn first_line(r: Seq<char>) -> Option<Seq<char>> {
    if r.len() == 0 {
        None
    } else {
        match r.index_of_first('\n') {
            Some(k) => {
                let line = r.take(k);
                if line.len() > 0 && line.last() == '\r' {
                    Some(line.drop_last())
                } else {
                    Some(line)
                }
            },
            None => Some(r),
        }
    }
}

/// First index `>= i` holding a non-whitespace character (or `s.len()`).
pub open spec fn skip_ws(s: Seq<char>, i: int) -> int
    decreases s.len() - i,
{
    if i >= s.len() {
        s.len() as int
    } else if is_ws(s[i]) {
        skip_ws(s, i + 1)
    } else {
        i
    }
}

/// First index `>= i` holding a whitespace character (or `s.len()`).
pub open spec fn skip_word(s: Seq<char>, i: int) -> int
    decreases s.len() - i,
{
    if i >= s.len() {
        s.len() as int
    } else if is_ws(s[i]) {
        i
    } else {
        skip_word(s, i + 1)
    }
}

/// The second whitespace-separated word (`split_whitespace().nth(1)`).
pub open spec fn second_word(s: Seq<char>) -> Option<Seq<char>> {
    let a0 = skip_ws(s, 0);
    let e0 = skip_word(s, a0);
    let a1 = skip_ws(s, e0);
    if a0 >= s.len() || a1 >= s.len() {
        None
    } else {
        Some(s.subrange(a1, skip_word(s, a1)))
    }
}

/// The query string: everything after the first `?`, or empty.
pub open spec fn query_of(path: Seq<char>) -> Seq<char> {
    match path.index_of_first('?') {
        Some(k) => path.subrange(k + 1, path.len() as int),
        None => Seq::empty(),
    }
}

/// Raw value of the last `name=value` pair of an `&`-separated query.
pub open spec fn last_param(q: Seq<char>, name: Seq<char>) -> Option<Seq<char>>
    decreases q.len(),
{
    let start = match q.index_of_last('&') {
        Some(k) => if 0 <= k < q.len() {
            k + 1
        } else {
            0
        },
        None => 0,
    };
    let seg = q.subrange(start, q.len() as int);
    let matched = match seg.index_of_first('=') {
        Some(e) => if 0 <= e < seg.len() && seg.take(e) == name {
            Some(seg.subrange(e + 1, seg.len() as int))
        } else {
            None
        },
        None => None,
    };
    if matched is Some {
        matched
    } else if start == 0 {
        None
    } else {
        proof {
            q.index_of_last_ensures('&');
        }
        last_param(q.take(start - 1), name)
    }
}

/// `q[i..j]` is one `&`-separated pair of the query `q`: it starts at the
/// beginning or after an `&`, ends at the end or before an `&`, and holds no
/// `&` in between.
pub open spec fn is_query_pair(q: Seq<char>, i: int, j: int) -> bool {
    &&& 0 <= i <= j <= q.len()
    &&& (i == 0 || q[i - 1] == '&')
    &&& (j == q.len() || q[j] == '&')
    &&& forall|k: int| i <= k < j ==> q[k] != '&'
}

/// A pair whose key is exactly `name` starts at `i`: the pair begins there
/// with `name` followed by `=`.
pub open spec fn key_at(q: Seq<char>, name: Seq<char>, i: int) -> bool {
    &&& 0 <= i && i + name.len() + 1 <= q.len()
    &&& (i == 0 || q[i - 1] == '&')
    &&& q.subrange(i, i + name.len() + 1) == name + seq!['=']
}

/// A parameter name: no `&` and no `=` in it.
pub open spec fn plain_name(name: Seq<char>) -> bool {
    forall|k: int| 0 <= k < name.len() ==> name[k] != '&' && #[trigger] name[k] != '='
}

/// A segment that starts with `name=` has its first `=` right after `name`.
proof fn lemma_first_eq_after_name(seg: Seq<char>, name: Seq<char>)
    requires
        plain_name(name),
        name.len() + 1 <= seg.len(),
        seg.subrange(0, name.len() + 1int) == name + seq!['='],
    ensures
        seg.index_of_first('=') == Some(name.len() as int),
        seg.take(name.len() as int) == name,
{
    assert(seg[name.len() as int] == seg.subrange(0, name.len() + 1int)[name.len() as int]);
    seg.index_of_first_ensures('=');
    let e = seg.index_of_first('=')->0;
    if e < name.len() {
        assert(seg[e] == seg.subrange(0, name.len() + 1int)[e]);
        assert(name[e] != '=');
    }
    assert(seg.take(name.len() as int) =~= name) by {
        assert forall|k: int| 0 <= k < name.len() implies seg.take(name.len() as int)[k] == name[k] by {
            assert(seg[k] == seg.subrange(0, name.len() + 1int)[k]);
        }
    }
}

/// The value found for a parameter `name` comes from an `&`-separated pair
/// whose key is exactly `name`, and from the last such pair; a value is found
/// exactly when some pair has that key. A pair with another key, such as
/// `session_state` when looking for `state`, never supplies it.
pub proof fn law_param_comes_from_pair_with_that_key(q: Seq<char>, name: Seq<char>)
    requires
        plain_name(name),
    ensures
        (exists|i: int| key_at(q, name, i)) <==> last_param(q, name) is Some,
        last_param(q, name) matches Some(v) ==> exists|i: int, j: int|
            is_query_pair(q, i, j) && q.subrange(i, j) == name + seq!['='] + v && key_at(q, name, i)
                && forall|i2: int| i < i2 ==> !#[trigger] key_at(q, name, i2),
    decreases q.len(),
{
    q.index_of_last_ensures('&');
    let start: int = match q.index_of_last('&') {
        Some(k) => if 0 <= k < q.len() {
            k + 1
        } else {
            0
        },
        None => 0,
    };
    let seg = q.subrange(start, q.len() as int);
    let n = name.len() as int;
    assert(forall|k: int| start <= k < q.len() ==> q[k] != '&');
    assert(start == 0 || q[start - 1] == '&');
    // A key `name` at `start` is exactly what the last segment matches.
    let key_here = key_at(q, name, start);
    if key_here {
        assert(seg.subrange(0, n + 1) =~= q.subrange(start, start + n + 1));
        lemma_first_eq_after_name(seg, name);
    }
    // No pair starts after `start`.
    assert forall|i2: int| start < i2 implies !#[trigger] key_at(q, name, i2) by {
        if key_at(q, name, i2) {
            assert(q[i2 - 1] == '&');
        }
    }
    let found = seg.index_of_first('=');
    let matched = found is Some && 0 <= found->0 < seg.len() && seg.take(found->0) == name;
    if matched {
        let e = found->0;
        seg.index_of_first_ensures('=');
        let v = seg.subrange(e + 1, seg.len() as int);
        assert(seg =~= name + seq!['='] + v);
        assert(q.subrange(start, q.len() as int) == name + seq!['='] + v);
        assert(q.subrange(start, start + n + 1) =~= name + seq!['=']);
        assert(key_at(q, name, start));
        assert(is_query_pair(q, start, q.len() as int));
    } else if start == 0 {
        assert forall|i: int| !#[trigger] key_at(q, name, i) by {
            if key_at(q, name, i) {
                if i > 0 {
                    assert(q[i - 1] == '&');
                }
            }
        }
    } else {
        let q2 = q.take(start - 1);
        law_param_comes_from_pair_with_that_key(q2, name);
        assert(q[start - 1] == '&');
        // A key in `q` before `start` is a key in `q2`, and back.
        assert forall|i: int| i < start implies #[trigger] key_at(q, name, i) == key_at(q2, name, i) by {
            if key_at(q, name, i) {
                if i + n + 1 > start - 1 {
                    let t = start - 1 - i;
                    assert(q[start - 1] == q.subrange(i, i + n + 1)[t]);
                    if t < n {
                        assert(name[t] != '&');
                    }
                }
                assert(q2.subrange(i, i + n + 1) =~= q.subrange(i, i + n + 1));
            }
            if key_at(q2, name, i) {
                assert(q2.subrange(i, i + n + 1) =~= q.subrange(i, i + n + 1));
            }
        }
        if exists|i: int| key_at(q, name, i) {
            let i = choose|i: int| key_at(q, name, i);
            assert(i < start);
            assert(key_at(q2, name, i));
        }
        if exists|i: int| key_at(q2, name, i) {
            let i = choose|i: int| key_at(q2, name, i);
            assert(key_at(q, name, i));
        }
        if last_param(q, name) is Some {
            let v = last_param(q, name)->0;
            let (i, j) = choose|i: int, j: int|
                is_query_pair(q2, i, j) && q2.subrange(i, j) == name + seq!['='] + v && key_at(q2, name, i)
                    && forall|i2: int| i < i2 ==> !#[trigger] key_at(q2, name, i2);
            assert(q.subrange(i, j) =~= q2.subrange(i, j));
            assert(key_at(q, name, i));
            assert(j == q.len() || q[j] == '&') by {
                if j < q2.len() {
                    assert(q2[j] == '&');
                }
            }
            assert forall|k: int| i <= k < j implies q[k] != '&' by {
                assert(q2[k] != '&');
            }
            assert(is_query_pair(q, i, j));
            assert forall|i2: int| i < i2 implies !#[trigger] key_at(q, name, i2) by {
                if i2 < start {
                    assert(!key_at(q2, name, i2));
                }
            }
        }
    }
}

/// Value of a hex digit byte.
pub open spec fn hex_value(b: u8) -> Option<u8> {
    if 48 <= b <= 57 {
        Some((b - 48) as u8)
    } else if 97 <= b <= 102 {
        Some((b - 87) as u8)
    } else if 65 <= b <= 70 {
        Some((b - 55) as u8)
    } else {
        None
    }
}

/// Decodes one hexadecimal digit (either case).
pub fn hex_digit(b: u8) -> (r: Option<u8>)
    ensures
        r == hex_value(b),
{
    if 48 <= b && b <= 57 {
        Some(b - 48)
    } else if 97 <= b && b <= 102 {
        Some(b - 87)
    } else if 65 <= b && b <= 70 {
        Some(b - 55)
    } else {
        None
    }
}

/// Percent-decoding of bytes: `%XX` (with two hex digits, not at the very end)
/// becomes the character with code `0xXX`; every other byte becomes the
/// character with its code. `+` is left alone.
pub open spec fn url_decode_spec(b: Seq<u8>) -> Seq<char>
    decreases b.len(),
{
    if b.len() == 0 {
        Seq::empty()
    } else if b[0] == 37 && 2 < b.len() && hex_value(b[1]) is Some && hex_value(b[2]) is Some {
        seq![((hex_value(b[1])->0 * 16 + hex_value(b[2])->0) as u8) as char] + url_decode_spec(
            b.skip(3),
        )
    } else {
        seq![b[0] as char] + url_decode_spec(b.skip(1))
    }
}

/// Minimal percent-decoding (see [`url_decode_spec`]).
pub fn url_decode(s: &str) -> (out: String)
    ensures
        out@ == url_decode_spec(s.spec_bytes()),
{
    let bytes = s.as_bytes();
    let n = bytes.len();
    let mut out = String::new();
    let mut i: usize = 0;
    proof {
        assert(bytes@.skip(0) =~= bytes@);
    }
    while i < n
        invariant
            i <= n,
            n == bytes@.len(),
            bytes@ == s.spec_bytes(),
            out@ + url_decode_spec(bytes@.skip(i as int)) == url_decode_spec(bytes@),
        decreases n - i,
    {
        let ghost rest = bytes@.skip(i as int);
        if bytes[i] == 37 && n - i > 2 {
            let hi = hex_digit(bytes[i + 1]);
            let lo = hex_digit(bytes[i + 2]);
            if let (Some(h), Some(l)) = (hi, lo) {
                let c = (h * 16 + l) as char;
                push_char(&mut out, c);
                proof {
                    assert(rest[0] == 37 && rest[1] == bytes@[i + 1] && rest[2] == bytes@[i + 2]);
                    assert(rest.skip(3) =~= bytes@.skip(i + 3));
                    assert(out@ + url_decode_spec(bytes@.skip(i + 3)) =~= url_decode_spec(bytes@));
                }
                i = i + 3;
                continue;
            }
        }
        push_char(&mut out, bytes[i] as char);
        proof {
            assert(rest[0] == bytes@[i as int]);
            assert(rest.skip(1) =~= bytes@.skip(i + 1));
            if rest[0] == 37 && 2 < rest.len() {
                assert(rest[1] == bytes@[i + 1] && rest[2] == bytes@[i + 2]);
            }
            assert(out@ + url_decode_spec(bytes@.skip(i + 1)) =~= url_decode_spec(bytes@));
        }
        i = i + 1;
    }
    proof {
        assert(bytes@.skip(n as int).len() == 0);
        assert(out@ =~= url_decode_spec(bytes@));
    }
    out
}


fn skip_ws_exec(c: &[char], lo: usize, hi: usize, i: usize) -> (r: usize)
    requires
        lo <= i <= hi <= c@.len(),
    ensures
        r == lo + skip_ws(c@.subrange(lo as int, hi as int), i - lo),
        i <= r <= hi,
{
    let ghost sub = c@.subrange(lo as int, hi as int);
    let mut j = i;
    while j < hi && char_is_ws(c[j])
        invariant
            i <= j <= hi <= c@.len(),
            lo <= i,
            sub == c@.subrange(lo as int, hi as int),
            skip_ws(sub, i - lo) == skip_ws(sub, j - lo),
        decreases hi - j,
    {
        proof {
            assert(sub[j - lo] == c@[j as int]);
        }
        j = j + 1;
    }
    proof {
        if j < hi {
            assert(sub[j - lo] == c@[j as int]);
        }
    }
    j
}

fn skip_word_exec(c: &[char], lo: usize, hi: usize, i: usize) -> (r: usize)
    requires
        lo <= i <= hi <= c@.len(),
    ensures
        r == lo + skip_word(c@.subrange(lo as int, hi as int), i - lo),
        i <= r <= hi,
{
    let ghost sub = c@.subrange(lo as int, hi as int);
    let mut j = i;
    while j < hi && !char_is_ws(c[j])
        invariant
            i <= j <= hi <= c@.len(),
            lo <= i,
            sub == c@.subrange(lo as int, hi as int),
            skip_word(sub, i - lo) == skip_word(sub, j - lo),
        decreases hi - j,
    {
        proof {
            assert(sub[j - lo] == c@[j as int]);
        }
        j = j + 1;
    }
    proof {
        if j < hi {
            assert(sub[j - lo] == c@[j as int]);
        }
    }
    j
}

/// Range of the value of the last `name=…` pair in the query `c[lo..hi]`.
fn find_last_param(c: &[char], lo: usize, hi: usize, name: &[char]) -> (r: Option<(usize, usize)>)
    requires
        lo <= hi <= c@.len(),
    ensures
        match last_param(c@.subrange(lo as int, hi as int), name@) {
            Some(v) => r matches Some((a, b)) && a <= b <= c@.len() && c@.subrange(a as int, b as int)
                == v,
            None => r is None,
        },
    decreases hi - lo,
{
    let ghost q = c@.subrange(lo as int, hi as int);
    let amp = find_last(c, lo, hi, '&');
    let start = match amp {
        Some(k) => k + 1,
        None => lo,
    };
    proof {
        q.index_of_last_ensures('&');
        assert(start - lo == match q.index_of_last('&') {
            Some(k) => if 0 <= k < q.len() {
                k + 1
            } else {
                0
            },
            None => 0,
        });
        assert(c@.subrange(start as int, hi as int) =~= q.subrange(start - lo, q.len() as int));
    }
    let ghost seg = c@.subrange(start as int, hi as int);
    let eq = find_first(c, start, hi, '=');
    if let Some(e) = eq {
        proof {
            seg.index_of_first_ensures('=');
            assert(c@.subrange(start as int, e as int) =~= seg.take(e - start));
            assert(c@.subrange(e + 1, hi as int) =~= seg.subrange(e - start + 1, seg.len() as int));
        }
        if range_equals(c, start, e, name) {
            return Some((e + 1, hi));
        }
    }
    if start == lo {
        return None;
    }
    proof {
        assert(c@.subrange(lo as int, start - 1) =~= q.take(start - lo - 1));
    }
    find_last_param(c, lo, start - 1, name)
}

/// The outcome of parsing a redirect request: the percent-decoded `code` and
/// `state` values, or the detail of the `Decode` error.
pub open spec fn redirect_params(r: Seq<char>) -> Result<(Seq<char>, Seq<char>), Seq<char>> {
    match first_line(r) {
        None => Err("empty HTTP request"@),
        Some(line) => match second_word(line) {
            None => Err("malformed HTTP request line"@),
            Some(path) => {
                let q = query_of(path);
                match last_param(q, "code"@) {
                    None => Err("OAuth redirect missing 'code' parameter"@),
                    Some(cv) => match last_param(q, "state"@) {
                        None => Err("OAuth redirect missing 'state' parameter"@),
                        Some(sv) => Ok(
                            (url_decode_spec(encode_utf8(cv)), url_decode_spec(encode_utf8(sv))),
                        ),
                    },
                }
            },
        },
    }
}

fn decode_error(detail: &str) -> (e: GraphInternalError)
    ensures
        e@ == (GraphInternalErrorView::Decode { detail: detail@ }),
{
    GraphInternalError::Decode { detail: String::from_str(detail) }
}

/// Range of the request target (the second word of the first line), or
/// `Err(0)` for an empty request and `Err(1)` for a malformed request line.
fn request_target(c: &[char]) -> (r: Result<(usize, usize), u8>)
    ensures
        match first_line(c@) {
            None => r == Err::<(usize, usize), u8>(0),
            Some(line) => match second_word(line) {
                None => r == Err::<(usize, usize), u8>(1),
                Some(p) => r matches Ok((a, b)) && a <= b <= c@.len() && c@.subrange(a as int, b as int)
                    == p,
            },
        },
{
    let n = c.len();
    if n == 0 {
        return Err(0);
    }
    let nl = find_first(c, 0, n, '\n');
    proof {
        assert(c@.subrange(0, n as int) =~= c@);
    }
    let line_end = match nl {
        Some(k) => if k > 0 && c[k - 1] == '\r' {
            k - 1
        } else {
            k
        },
        None => n,
    };
    proof {
        c@.index_of_first_ensures('\n');
        let fl = first_line(c@)->0;
        assert(fl =~= c@.subrange(0, line_end as int));
    }
    let ghost line = c@.subrange(0, line_end as int);
    let a0 = skip_ws_exec(c, 0, line_end, 0);
    let e0 = skip_word_exec(c, 0, line_end, a0);
    let a1 = skip_ws_exec(c, 0, line_end, e0);
    if a0 >= line_end || a1 >= line_end {
        return Err(1);
    }
    let e1 = skip_word_exec(c, 0, line_end, a1);
    proof {
        assert(c@.subrange(a1 as int, e1 as int) =~= line.subrange(a1 as int, e1 as int));
    }
    Ok((a1, e1))
}

/// Parses `code` and `state` from the request line of a raw HTTP request
/// (`GET /callback?code=X&state=Y HTTP/1.1`). The last occurrence of each
/// parameter wins; values are percent-decoded.
pub fn parse_code_and_state(request: &str) -> (r: Result<(String, String), GraphInternalError>)
    ensures
        match redirect_params(request@) {
            Ok((code, state)) => r matches Ok((c, s)) && c@ == code && s@ == state,
            Err(d) => r matches Err(e) && e@ == (GraphInternalErrorView::Decode { detail: d }),
        },
{
    let c = str_chars(request);
    let (a1, e1) = match request_target(c.as_slice()) {
        Ok(r) => r,
        Err(k) => {
            if k == 0 {
                return Err(decode_error("empty HTTP request"));
            } else {
                return Err(decode_error("malformed HTTP request line"));
            }
        },
    };
    let ghost path = c@.subrange(a1 as int, e1 as int);
    let qm = find_first(c.as_slice(), a1, e1, '?');
    let (qlo, qhi) = match qm {
        Some(k) => (k + 1, e1),
        None => (e1, e1),
    };
    proof {
        path.index_of_first_ensures('?');
        assert(c@.subrange(qlo as int, qhi as int) =~= query_of(path));
    }
    let code_name = str_chars("code");
    let state_name = str_chars("state");
    let code_range = find_last_param(c.as_slice(), qlo, qhi, code_name.as_slice());
    let (clo, chi) = match code_range {
        Some(r) => r,
        None => {
            return Err(decode_error("OAuth redirect missing 'code' parameter"));
        },
    };
    let state_range = find_last_param(c.as_slice(), qlo, qhi, state_name.as_slice());
    let (slo, shi) = match state_range {
        Some(r) => r,
        None => {
            return Err(decode_error("OAuth redirect missing 'state' parameter"));
        },
    };
    let code_raw = string_of(c.as_slice(), clo, chi);
    let state_raw = string_of(c.as_slice(), slo, shi);
    let code = url_decode(code_raw.as_str());
    let state = url_decode(state_raw.as_str());
    Ok((code, state))
}

/// The text `format!("{:?}", s)` writes for a string (quoted, with escapes).
pub uninterp spec fn debug_quoted_spec(s: Seq<char>) -> Seq<char>;

/// `<str as Debug>::fmt`: the quoted, escaped form of `s`.
/// The contract only names the result; it depends on the text alone.
#[verifier::external_body]
fn debug_quoted(s: &str) -> (r: String)
    ensures
        r@ == debug_quoted_spec(s@),
{
    format!("{s:?}")
}

/// Parses the redirect and checks that its `state` equals `expected_state`;
/// a mismatch is a `Decode` error naming both values.
pub fn accept_redirect(request: &str, expected_state: &str) -> (r: Result<
    (String, String),
    GraphInternalError,
>)
    ensures
        match redirect_params(request@) {
            Ok((code, state)) => if state == expected_state@ {
                r matches Ok((c, s)) && c@ == code && s@ == state
            } else {
                r matches Err(e) && e@ == (GraphInternalErrorView::Decode {
                    detail: "OAuth state mismatch: expected "@ + debug_quoted_spec(expected_state@)
                        + ", got "@ + debug_quoted_spec(state),
                })
            },
            Err(d) => r matches Err(e) && e@ == (GraphInternalErrorView::Decode { detail: d }),
        },
{
    let (code, state) = match parse_code_and_state(request) {
        Ok(p) => p,
        Err(e) => {
            return Err(e);
        },
    };
    if !str_equal(state.as_str(), expected_state) {
        let detail = String::from_str("OAuth state mismatch: expected ").concat(
            debug_quoted(expected_state).as_str(),
        ).concat(", got ").concat(debug_quoted(state.as_str()).as_str());
        return Err(GraphInternalError::Decode { detail });
    }
    Ok((code, state))
}

} // verus!

//! The per-account access-token cache behind `ensure_fresh_token`, and the
//! random `client-request-id` tag of each request.
//!
//! A cached token is served while it expires more than
//! [`TOKEN_REFRESH_LEEWAY_S`] seconds after the current instant; otherwise
//! the caller refreshes and records the new token, which expires
//! `expires_in` seconds after the instant of the refresh.

use vstd::prelude::*;

use crate::graph::codec::random_bytes;
use crate::protocol::primitives::Timestamp;
use crate::text::{hex_encode, hex_lower_of};
use vstd::hash_map::StringHashMap;

verus! {

/// A cached token is refreshed once it expires within this many seconds.
pub const TOKEN_REFRESH_LEEWAY_S: i64 = 120;

/// Lifetime assumed when the reported `expires_in` does not fit an `i64`.
pub const FALLBACK_EXPIRES_IN_S: i64 = 3600;

/// An instant in nanoseconds since the epoch.
pub open spec fn nanos(t: Timestamp) -> int {
    t.unix_seconds * 1_000_000_000 + t.subsec_nanos
}

/// Whether a token expiring at `expires_at` is still served at `now`.
pub open spec fn still_fresh(expires_at: Timestamp, now: Timestamp) -> bool {
    nanos(expires_at) - nanos(now) > TOKEN_REFRESH_LEEWAY_S * 1_000_000_000
}

/// The lifetime used for a reported `expires_in`.
pub open spec fn effective_expires_in(expires_in_s: u64) -> i64 {
    if expires_in_s <= i64::MAX as u64 {
        expires_in_s as i64
    } else {
        FALLBACK_EXPIRES_IN_S
    }
}

/// The expiry recorded for a token refreshed at `now`.
pub open spec fn expiry_after(now: Timestamp, expires_in_s: u64) -> Timestamp {
    Timestamp {
        unix_seconds: (now.unix_seconds + effective_expires_in(expires_in_s)) as i64,
        subsec_nanos: now.subsec_nanos,
    }
}

/// Whether the expiry of a refresh at `now` is representable.
pub open spec fn expiry_fits(now: Timestamp, expires_in_s: u64) -> bool {
    now.unix_seconds + effective_expires_in(expires_in_s) <= i64::MAX
}

/// The lifetime used for a reported `expires_in`: the value itself when it
/// fits an `i64`, else [`FALLBACK_EXPIRES_IN_S`].
pub fn effective_lifetime(expires_in_s: u64) -> (r: i64)
    ensures
        r == effective_expires_in(expires_in_s),
{
    if expires_in_s <= i64::MAX as u64 {
        expires_in_s as i64
    } else {
        FALLBACK_EXPIRES_IN_S
    }
}

/// One cached access token.
#[derive(Clone, Debug)]
pub struct CachedToken {
    pub access_token: String,
    pub expires_at: Timestamp,
}

/// Access tokens by account id.
pub struct TokenCache {
    entries: StringHashMap<CachedToken>,
}

impl View for TokenCache {
    type V = Map<Seq<char>, CachedToken>;

    closed spec fn view(&self) -> Map<Seq<char>, CachedToken> {
        self.entries@
    }
}

/// Whether the token expiring at `expires_at` is still served at `now`.
pub fn is_still_fresh(expires_at: Timestamp, now: Timestamp) -> (r: bool)
    ensures
        r == still_fresh(expires_at, now),
{
    let secs: i128 = expires_at.unix_seconds as i128 - now.unix_seconds as i128;
    let sub: i128 = expires_at.subsec_nanos as i128 - now.subsec_nanos as i128;
    proof {
        assert(-0x1_0000_0000_0000_0000 <= secs <= 0x1_0000_0000_0000_0000);
        assert(secs * 1_000_000_000 <= 0x1_0000_0000_0000_0000 * 1_000_000_000) by (nonlinear_arith)
            requires
                secs <= 0x1_0000_0000_0000_0000,
        ;
        assert(secs * 1_000_000_000 >= -0x1_0000_0000_0000_0000 * 1_000_000_000) by (nonlinear_arith)
            requires
                secs >= -0x1_0000_0000_0000_0000,
        ;
    }
    let diff: i128 = secs * 1_000_000_000 + sub;
    diff > (TOKEN_REFRESH_LEEWAY_S as i128) * 1_000_000_000
}

impl TokenCache {
    /// An empty cache.
    pub fn new() -> (c: Self)
        ensures
            c@ == Map::<Seq<char>, CachedToken>::empty(),
    {
        TokenCache { entries: StringHashMap::new() }
    }

    /// The cached token of `account_id`, if one is cached and still fresh at
    /// `now`; `None` means the caller must refresh.
    pub fn fresh_token(&self, account_id: &str, now: Timestamp) -> (r: Option<String>)
        ensures
            (self@.contains_key(account_id@) && still_fresh(self@[account_id@].expires_at, now))
                ==> (r matches Some(t) && t@ == self@[account_id@].access_token@),
            !(self@.contains_key(account_id@) && still_fresh(self@[account_id@].expires_at, now))
                ==> r is None,
    {
        match self.entries.get(account_id) {
            Some(cached) => {
                if is_still_fresh(cached.expires_at, now) {
                    Some(cached.access_token.clone())
                } else {
                    None
                }
            },
            None => None,
        }
    }

    /// Records the token obtained by a refresh at `now` that reported
    /// `expires_in_s`, replacing any earlier token of `account_id`, and hands
    /// the token back.
    pub fn record_refresh(&mut self, account_id: &str, access_token: String, expires_in_s: u64, now: Timestamp) -> (r: String)
        requires
            expiry_fits(now, expires_in_s),
        ensures
            r@ == access_token@,
            final(self)@.dom() == old(self)@.dom().insert(account_id@),
            final(self)@[account_id@].access_token@ == access_token@,
            final(self)@[account_id@].expires_at == expiry_after(now, expires_in_s),
            forall|k: Seq<char>| k != account_id@ ==> #[trigger] final(self)@.get(k) == old(self)@.get(k),
    {
        let lifetime = effective_lifetime(expires_in_s);
        let expires_at = Timestamp::from_unix(now.unix_seconds + lifetime, now.subsec_nanos);
        let cached = CachedToken { access_token: access_token.clone(), expires_at };
        self.entries.insert(String::from_str(account_id), cached);
        access_token
    }
}

/// A random request id: `n` random bytes as lower-case hex; `None` when the
/// operating system's generator fails.
pub fn new_request_id(n: usize) -> (r: Option<String>)
    requires
        n <= usize::MAX / 2,
    ensures
        r matches Some(s) ==> exists|b: Seq<u8>| b.len() == n && s@ == hex_lower_of(b),
{
    match random_bytes(n) {
        Some(b) => Some(hex_encode(b.as_slice())),
        None => None,
    }
}

} // verus!

verus! {

/// A token recorded by a refresh at `now` whose lifetime exceeds the leeway
/// is served at that same instant.
pub proof fn lemma_recorded_token_is_fresh(now: Timestamp, expires_in_s: u64)
    requires
        expiry_fits(now, expires_in_s),
        effective_expires_in(expires_in_s) > TOKEN_REFRESH_LEEWAY_S,
    ensures
        still_fresh(expiry_after(now, expires_in_s), now),
{
    let e = expiry_after(now, expires_in_s);
    assert(nanos(e) - nanos(now) == effective_expires_in(expires_in_s) * 1_000_000_000);
}

/// A token served at some instant is also served at every earlier instant.
pub proof fn lemma_fresh_earlier(expires_at: Timestamp, earlier: Timestamp, later: Timestamp)
    requires
        nanos(earlier) <= nanos(later),
        still_fresh(expires_at, later),
    ensures
        still_fresh(expires_at, earlier),
{
}

} // verus!

verus! {

/// A token recorded by a refresh at `now` with lifetime `L` is served at every
/// instant from `now` until `L` minus the leeway has passed, so a second lookup
/// in that window returns it without a refresh.
pub proof fn law_recorded_token_served_within_lifetime(now: Timestamp, later: Timestamp, expires_in_s: u64)
    requires
        expiry_fits(now, expires_in_s),
        nanos(later) - nanos(now) < (effective_expires_in(expires_in_s) - TOKEN_REFRESH_LEEWAY_S)
            * 1_000_000_000,
    ensures
        still_fresh(expiry_after(now, expires_in_s), later),
{
    let e = expiry_after(now, expires_in_s);
    assert(nanos(e) - nanos(now) == effective_expires_in(expires_in_s) * 1_000_000_000);
}

} // verus!

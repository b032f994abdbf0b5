//! The per-account token bucket as a state machine: how many permits are
//! available, the refill cadence, and the pause that a `Retry-After` imposes.
//!
//! The bucket starts full (burst = twice the rate), one permit comes back
//! every `1000 / rate` milliseconds up to the burst, and every acquire first
//! waits out an active pause. A later pause keeps the later of the two
//! deadlines. Times are milliseconds since the bucket was made.

use vstd::prelude::*;

verus! {

/// Default requests per second per account.
pub const GRAPH_RPS_PER_ACCOUNT: u32 = 10;

/// What an acquire does next.
#[derive(Clone, Copy, Debug, PartialEq, Eq, Structural)]
pub enum AcquireStep {
    /// A permit was taken; the request may go out.
    Granted,
    /// A pause is active: sleep this many milliseconds and ask again.
    SleepMs(u64),
    /// No permit is left: wait for the next refill and ask again.
    WaitForPermit,
}

/// Token bucket state.
#[derive(Clone, Debug)]
pub struct Bucket {
    rate_rps: u32,
    burst: u64,
    interval_ms: u64,
    available: u64,
    pause_until_ms: u64,
}

/// The model of a bucket.
pub struct BucketView {
    pub rate_rps: nat,
    pub burst: nat,
    pub interval_ms: nat,
    pub available: nat,
    /// `0` when no pause is active.
    pub pause_until_ms: nat,
}

impl View for Bucket {
    type V = BucketView;

    closed spec fn view(&self) -> BucketView {
        BucketView {
            rate_rps: self.rate_rps as nat,
            burst: self.burst as nat,
            interval_ms: self.interval_ms as nat,
            available: self.available as nat,
            pause_until_ms: self.pause_until_ms as nat,
        }
    }
}

/// The rate actually used: at least one request per second.
pub open spec fn effective_rate(rate_rps: u32) -> nat {
    if rate_rps == 0 {
        1
    } else {
        rate_rps as nat
    }
}

/// The deadline after a pause of `duration_ms` asked at `now_ms`: the later
/// of the current deadline and `now_ms + duration_ms`.
pub open spec fn paused_until(current: nat, now_ms: nat, duration_ms: nat) -> nat {
    if now_ms + duration_ms <= current {
        current
    } else {
        now_ms + duration_ms
    }
}

impl Bucket {
    /// Internal consistency: a positive rate, burst twice the rate, interval
    /// `1000 / rate`, and never more permits than the burst.
    pub open spec fn wf(&self) -> bool {
        let v = self@;
        &&& v.rate_rps >= 1
        &&& v.burst == 2 * v.rate_rps
        &&& v.interval_ms == 1000nat / v.rate_rps
        &&& v.available <= v.burst
    }

    /// A full bucket at [`GRAPH_RPS_PER_ACCOUNT`].
    pub fn new() -> (b: Self)
        ensures
            b.wf(),
            b@.rate_rps == GRAPH_RPS_PER_ACCOUNT,
            b@.available == b@.burst,
            b@.pause_until_ms == 0,
    {
        Self::with_rate(GRAPH_RPS_PER_ACCOUNT)
    }

    /// A full bucket at `rate_rps` requests per second (a rate of `0` is
    /// taken as `1`).
    pub fn with_rate(rate_rps: u32) -> (b: Self)
        requires
            rate_rps <= u32::MAX / 2,
        ensures
            b.wf(),
            b@.rate_rps == effective_rate(rate_rps),
            b@.burst == 2 * effective_rate(rate_rps),
            b@.interval_ms == 1000nat / effective_rate(rate_rps),
            b@.available == b@.burst,
            b@.pause_until_ms == 0,
    {
        let rate_rps: u32 = if rate_rps == 0 {
            1
        } else {
            rate_rps
        };
        let burst: u64 = (rate_rps * 2) as u64;
        let interval_ms: u64 = 1000u64 / (rate_rps as u64);
        Bucket { rate_rps, burst, interval_ms, available: burst, pause_until_ms: 0 }
    }

    /// Milliseconds between two refills.
    pub fn interval_ms(&self) -> (r: u64)
        ensures
            r == self@.interval_ms,
    {
        self.interval_ms
    }

    /// The burst capacity.
    pub fn burst(&self) -> (r: u64)
        ensures
            r == self@.burst,
    {
        self.burst
    }

    /// Permits available right now.
    pub fn available_permits(&self) -> (r: u64)
        ensures
            r == self@.available,
    {
        self.available
    }

    /// The active pause deadline, `0` when none.
    pub fn pause_until_ms(&self) -> (r: u64)
        ensures
            r == self@.pause_until_ms,
    {
        self.pause_until_ms
    }

    /// Pauses every later acquire until `now_ms + duration_ms`, unless a
    /// later deadline is already set.
    pub fn pause_for(&mut self, now_ms: u64, duration_ms: u64)
        requires
            old(self).wf(),
            now_ms + duration_ms <= u64::MAX,
        ensures
            final(self).wf(),
            final(self)@.pause_until_ms == paused_until(
                old(self)@.pause_until_ms,
                now_ms as nat,
                duration_ms as nat,
            ),
            final(self)@.available == old(self)@.available,
            final(self)@.rate_rps == old(self)@.rate_rps,
    {
        let target = now_ms + duration_ms;
        if target <= self.pause_until_ms {
            return;
        }
        self.pause_until_ms = target;
    }

    /// One refill tick: a permit comes back unless the bucket is full.
    pub fn tick(&mut self)
        requires
            old(self).wf(),
        ensures
            final(self).wf(),
            final(self)@.available == if old(self)@.available < old(self)@.burst {
                old(self)@.available + 1
            } else {
                old(self)@.available
            },
            final(self)@.pause_until_ms == old(self)@.pause_until_ms,
            final(self)@.rate_rps == old(self)@.rate_rps,
    {
        if self.available < self.burst {
            self.available = self.available + 1;
        }
    }

    /// One attempt to acquire at `now_ms`: sleep out an active pause (an
    /// expired one is cleared), else take a permit, else wait for a refill.
    pub fn acquire(&mut self, now_ms: u64) -> (step: AcquireStep)
        requires
            old(self).wf(),
        ensures
            final(self).wf(),
            final(self)@.rate_rps == old(self)@.rate_rps,
            old(self)@.pause_until_ms != 0 && now_ms < old(self)@.pause_until_ms ==> step
                == AcquireStep::SleepMs((old(self)@.pause_until_ms - now_ms) as u64) && final(self)@
                == old(self)@,
            !(old(self)@.pause_until_ms != 0 && now_ms < old(self)@.pause_until_ms) ==> {
                &&& final(self)@.pause_until_ms == 0
                &&& old(self)@.available > 0 ==> step == AcquireStep::Granted
                    && final(self)@.available == old(self)@.available - 1
                &&& old(self)@.available == 0 ==> step == AcquireStep::WaitForPermit
                    && final(self)@.available == 0
            },
    {
        let until = self.pause_until_ms;
        if until != 0 {
            if now_ms < until {
                return AcquireStep::SleepMs(until - now_ms);
            }
            self.pause_until_ms = 0;
        }
        if self.available > 0 {
            self.available = self.available - 1;
            AcquireStep::Granted
        } else {
            AcquireStep::WaitForPermit
        }
    }
}

/// A second pause never shortens the first: after pausing for `d1` at `t1`
/// and then for `d2` at `t2`, the deadline is the later of the two targets.
pub proof fn lemma_pause_keeps_later_deadline(current: nat, t1: nat, d1: nat, t2: nat, d2: nat)
    ensures
        paused_until(paused_until(current, t1, d1), t2, d2) >= t1 + d1,
        paused_until(paused_until(current, t1, d1), t2, d2) >= t2 + d2,
        paused_until(paused_until(current, t1, d1), t2, d2) >= current,
        paused_until(paused_until(current, t1, d1), t2, d2) == if current >= t1 + d1 && current >= t2 + d2 {
            current
        } else if t1 + d1 >= t2 + d2 {
            t1 + d1
        } else {
            t2 + d2
        },
{
}

} // verus!

verus! {

impl Default for Bucket {
    /// A full bucket at [`GRAPH_RPS_PER_ACCOUNT`].
    fn default() -> (b: Self)
        ensures
            b.wf(),
            b@.rate_rps == GRAPH_RPS_PER_ACCOUNT,
            b@.available == b@.burst,
            b@.pause_until_ms == 0,
    {
        Bucket::new()
    }
}

} // verus!

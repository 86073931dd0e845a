//! A token bucket with continuous refill and server-driven backoff.
//!
//! Time is a plain `u64` count of nanoseconds on a monotonic clock chosen by
//! the caller; every operation takes the current instant `now`.
use vstd::prelude::*;
use vstd::arithmetic::div_mod::lemma_fundamental_div_mod;
use crate::retry_after::{http_date_of, retry_after_at, retry_delay, trimmed, unix_now_nanos};

verus! {

pub const NANOS_PER_SEC: u64 = 1_000_000_000;

/// A refill rate of `tokens` tokens every `per_secs` seconds.
#[derive(Clone, Copy, Debug, PartialEq, Eq, Structural)]
pub struct RefillRate {
    pub tokens: u32,
    pub per_secs: u32,
}

/// Configuration rejected at construction.
#[derive(Clone, Copy, Debug, PartialEq, Eq, Structural)]
pub enum ConfigError {
    ZeroCapacity,
    ZeroRefillRate,
}

/// The decision of one step of a blocking consumption.
#[derive(Clone, Copy, Debug, PartialEq, Eq, Structural)]
pub enum ConsumeStep {
    /// The tokens were taken.
    Granted,
    /// Nothing was taken; look again at this instant or on a wake signal.
    WaitUntil(u64),
    /// Nothing was taken and time alone never grants the request (it asks for
    /// more than the capacity); only a wake signal is worth waiting for.
    WaitForSignal,
}

/// The complete state of a token bucket.
///
/// `remainder` is the fractional token carried between refills, counted in
/// units of `1 / scale()` of a token.
#[derive(Clone, Copy, Debug, PartialEq, Eq, Structural)]
pub struct BucketState {
    pub capacity: u32,
    pub tokens: u32,
    pub rate: RefillRate,
    pub last_refill: u64,
    pub remainder: u64,
    pub pause_until: Option<u64>,
}

/// `a + b`, saturated at `u64::MAX`.
pub open spec fn sat_add(a: u64, b: u64) -> u64 {
    if a + b > u64::MAX {
        u64::MAX
    } else {
        (a + b) as u64
    }
}

/// The later of an optional deadline and a new one.
pub open spec fn later_deadline(existing: Option<u64>, until: u64) -> u64 {
    match existing {
        Some(p) => if p > until {
            p
        } else {
            until
        },
        None => until,
    }
}

impl BucketState {
    /// Fractional units per whole token: `per_secs` seconds in nanoseconds.
    pub open spec fn scale(self) -> int {
        self.rate.per_secs as int * NANOS_PER_SEC as int
    }

    pub open spec fn wf(self) -> bool {
        &&& self.capacity > 0
        &&& self.tokens <= self.capacity
        &&& self.rate.tokens > 0
        &&& self.rate.per_secs > 0
        &&& self.remainder < self.scale()
    }

    /// Whether a backoff deadline lies after `now`.
    pub open spec fn in_backoff(self, now: u64) -> bool {
        match self.pause_until {
            Some(p) => now < p,
            None => false,
        }
    }

    /// Fractional units accrued from `last_refill` up to `now`, carry included.
    pub open spec fn accrued(self, now: u64) -> int {
        (now - self.last_refill) * self.rate.tokens + self.remainder
    }

    /// The state after accounting for the time elapsed up to `now`.
    pub open spec fn refilled(self, now: u64) -> BucketState {
        if now > self.last_refill {
            let raw = self.accrued(now);
            let sum = self.tokens + raw / self.scale();
            BucketState {
                tokens: if sum > self.capacity {
                    self.capacity
                } else {
                    sum as u32
                },
                remainder: (raw % self.scale()) as u64,
                last_refill: now,
                ..self
            }
        } else {
            self
        }
    }

    /// Tokens that may be taken at `now`: none while in backoff.
    pub open spec fn available(self, now: u64) -> nat {
        if self.in_backoff(now) {
            0
        } else {
            self.refilled(now).tokens as nat
        }
    }

    /// A non-blocking attempt to take `n` tokens: the new state and whether
    /// they were taken.
    pub open spec fn try_consume_result(self, n: u32, now: u64) -> (BucketState, bool) {
        let b = self.refilled(now);
        if !self.in_backoff(now) && b.tokens >= n {
            (BucketState { tokens: (b.tokens - n) as u32, ..b }, true)
        } else {
            (b, false)
        }
    }

    /// Nanoseconds until `n` tokens have accrued, for `tokens < n`.
    pub open spec fn wait_for_tokens(self, n: u32) -> int {
        let need = (n - self.tokens) * self.scale() - self.remainder;
        (need + self.rate.tokens - 1) / self.rate.tokens as int
    }

    /// One step of a blocking attempt to take `n` tokens.
    pub open spec fn consume_result(self, n: u32, now: u64) -> (BucketState, ConsumeStep) {
        let b = self.refilled(now);
        if self.in_backoff(now) {
            (b, ConsumeStep::WaitUntil(later_deadline(self.pause_until, now)))
        } else if b.tokens >= n {
            (BucketState { tokens: (b.tokens - n) as u32, ..b }, ConsumeStep::Granted)
        } else if n > self.capacity {
            (b, ConsumeStep::WaitForSignal)
        } else {
            let w = b.wait_for_tokens(n);
            (b, ConsumeStep::WaitUntil(if now + w > u64::MAX { u64::MAX } else { (now + w) as u64 }))
        }
    }

    /// The state after a backoff of `dur` nanoseconds requested at `now`.
    pub open spec fn backed_off(self, dur: u64, now: u64) -> BucketState {
        let b = self.refilled(now);
        BucketState {
            tokens: 0,
            remainder: 0,
            pause_until: Some(later_deadline(self.pause_until, sat_add(now, dur))),
            ..b
        }
    }

    /// Nanoseconds from `now` until `n` tokens can be taken, ignoring other
    /// consumers; `None` when `n` exceeds the capacity.
    pub open spec fn time_until(self, n: u32, now: u64) -> Option<u64> {
        let b = self.refilled(now);
        let pause = if self.in_backoff(now) {
            later_deadline(self.pause_until, now) - now
        } else {
            0
        };
        let fill = if b.tokens >= n {
            0
        } else {
            b.wait_for_tokens(n)
        };
        if n > self.capacity {
            None
        } else {
            let w = if pause > fill {
                pause
            } else {
                fill
            };
            Some(if w > u64::MAX { u64::MAX } else { w as u64 })
        }
    }
}

/// A token bucket: up to `capacity` tokens, refilled continuously at a fixed
/// rate, and emptied and paused by a backoff.
pub struct TokenBucket {
    state: BucketState,
}

impl View for TokenBucket {
    type V = BucketState;

    closed spec fn view(&self) -> BucketState {
        self.state
    }
}

impl TokenBucket {
    pub open spec fn wf(&self) -> bool {
        self@.wf()
    }

    /// A full bucket holding `capacity` tokens that refills at `rate`.
    pub fn new(capacity: u32, rate: RefillRate, now: u64) -> (r: Result<TokenBucket, ConfigError>)
        ensures
            match r {
                Ok(b) => {
                    &&& capacity > 0 && rate.tokens > 0 && rate.per_secs > 0
                    &&& b@ == (BucketState {
                        capacity,
                        tokens: capacity,
                        rate,
                        last_refill: now,
                        remainder: 0,
                        pause_until: None,
                    })
                    &&& b.wf()
                },
                Err(e) => if capacity == 0 {
                    e == ConfigError::ZeroCapacity
                } else {
                    (rate.tokens == 0 || rate.per_secs == 0) && e == ConfigError::ZeroRefillRate
                },
            },
    {
        if capacity == 0 {
            return Err(ConfigError::ZeroCapacity);
        }
        if rate.tokens == 0 || rate.per_secs == 0 {
            return Err(ConfigError::ZeroRefillRate);
        }
        Ok(TokenBucket {
            state: BucketState {
                capacity,
                tokens: capacity,
                rate,
                last_refill: now,
                remainder: 0,
                pause_until: None,
            },
        })
    }

    /// The current state.
    pub fn state(&self) -> (r: BucketState)
        ensures
            r == self@,
    {
        self.state
    }

    /// Accounts for the time elapsed up to `now`; refill only adds tokens.
    pub fn refill(&mut self, now: u64)
        requires
            old(self).wf(),
        ensures
            final(self)@ == old(self)@.refilled(now),
            final(self).wf(),
            final(self)@.tokens >= old(self)@.tokens,
    {
        if now > self.state.last_refill {
            let elapsed: u128 = (now - self.state.last_refill) as u128;
            let per: u128 = self.state.rate.tokens as u128;
            let scale: u128 = self.state.rate.per_secs as u128 * NANOS_PER_SEC as u128;
            assert(elapsed * per <= 0xffff_ffff_ffff_ffffu128 * 0xffff_ffffu128) by (nonlinear_arith)
                requires
                    elapsed <= 0xffff_ffff_ffff_ffffu128,
                    per <= 0xffff_ffffu128,
            ;
            let raw: u128 = elapsed * per + self.state.remainder as u128;
            let whole: u128 = raw / scale;
            let rem: u128 = raw % scale;
            assert(whole <= raw) by (nonlinear_arith)
                requires
                    whole == raw / scale,
                    scale > 0,
            ;
            let sum: u128 = self.state.tokens as u128 + whole;
            self.state.tokens = if sum > self.state.capacity as u128 {
                self.state.capacity
            } else {
                sum as u32
            };
            self.state.remainder = rem as u64;
            self.state.last_refill = now;
        }
    }

    /// Takes `n` tokens if the bucket is not in backoff and holds them.
    pub fn try_consume(&mut self, n: u32, now: u64) -> (r: bool)
        requires
            old(self).wf(),
        ensures
            (final(self)@, r) == old(self)@.try_consume_result(n, now),
            final(self).wf(),
    {
        self.refill(now);
        if self.in_backoff(now) {
            return false;
        }
        if self.state.tokens >= n {
            self.state.tokens = self.state.tokens - n;
            true
        } else {
            false
        }
    }

    /// Whether a backoff deadline lies after `now`.
    pub fn in_backoff(&self, now: u64) -> (r: bool)
        ensures
            r == self@.in_backoff(now),
    {
        match self.state.pause_until {
            Some(p) => now < p,
            None => false,
        }
    }

    /// Refills, then reports the tokens that may be taken at `now`.
    pub fn available_tokens(&mut self, now: u64) -> (r: u32)
        requires
            old(self).wf(),
        ensures
            r == old(self)@.available(now),
            final(self)@ == old(self)@.refilled(now),
            final(self).wf(),
    {
        self.refill(now);
        if self.in_backoff(now) {
            0
        } else {
            self.state.tokens
        }
    }

    /// Nanoseconds until `n` tokens accrue, for a refilled bucket holding
    /// fewer than `n <= capacity` tokens.
    fn wait_for_tokens(&self, n: u32) -> (r: u64)
        requires
            self.wf(),
            self@.tokens < n,
            n <= self@.capacity,
        ensures
            r == (if self@.wait_for_tokens(n) > u64::MAX {
                u64::MAX as int
            } else {
                self@.wait_for_tokens(n)
            }),
    {
        let scale: u128 = self.state.rate.per_secs as u128 * NANOS_PER_SEC as u128;
        let missing: u128 = (n - self.state.tokens) as u128;
        assert(missing * scale <= 0xffff_ffffu128 * (0xffff_ffffu128 * 1_000_000_000u128))
            by (nonlinear_arith)
            requires
                missing <= 0xffff_ffffu128,
                scale <= 0xffff_ffffu128 * 1_000_000_000u128,
        ;
        assert(missing * scale >= scale) by (nonlinear_arith)
            requires
                missing >= 1,
                scale >= 0,
        ;
        let need: u128 = missing * scale - self.state.remainder as u128;
        let per: u128 = self.state.rate.tokens as u128;
        let w: u128 = (need + per - 1) / per;
        if w > u64::MAX as u128 {
            u64::MAX
        } else {
            w as u64
        }
    }

    /// One step of a blocking consumption of `n` tokens: takes them when the
    /// bucket is out of backoff and holds them, and otherwise says how long
    /// to wait. A step that waits leaves the bucket only refilled.
    pub fn consume(&mut self, n: u32, now: u64) -> (r: ConsumeStep)
        requires
            old(self).wf(),
        ensures
            (final(self)@, r) == old(self)@.consume_result(n, now),
            final(self).wf(),
    {
        self.refill(now);
        if let Some(p) = self.state.pause_until {
            if now < p {
                return ConsumeStep::WaitUntil(p);
            }
        }
        if self.state.tokens >= n {
            self.state.tokens = self.state.tokens - n;
            ConsumeStep::Granted
        } else if n > self.state.capacity {
            ConsumeStep::WaitForSignal
        } else {
            let w = self.wait_for_tokens(n);
            if w > u64::MAX - now {
                ConsumeStep::WaitUntil(u64::MAX)
            } else {
                ConsumeStep::WaitUntil(now + w)
            }
        }
    }

    /// Starts a backoff of `dur` nanoseconds: the bucket is emptied and no
    /// token is taken before the later of the current deadline and
    /// `now + dur` (saturated).
    pub fn backoff_for(&mut self, dur: u64, now: u64)
        requires
            old(self).wf(),
        ensures
            final(self)@ == old(self)@.backed_off(dur, now),
            final(self).wf(),
    {
        self.refill(now);
        let until: u64 = if dur > u64::MAX - now {
            u64::MAX
        } else {
            now + dur
        };
        let deadline: u64 = match self.state.pause_until {
            Some(p) => if p > until {
                p
            } else {
                until
            },
            None => until,
        };
        self.state.pause_until = Some(deadline);
        self.state.tokens = 0;
        self.state.remainder = 0;
    }

    /// The wait, in nanoseconds, that the `Retry-After` header value `value`
    /// asks for by the wall clock: seconds when it is a number, the time left
    /// until the date when it is an HTTP-date (zero if it has passed), and
    /// 30 seconds otherwise. Whatever the clock reads, the result is the wait
    /// for some instant.
    pub fn parse_retry_after(&self, value: &str) -> (r: u64)
        ensures
            exists|now: u128| r == retry_delay(trimmed(value@), http_date_of(trimmed(value@)), now),
    {
        let now = unix_now_nanos();
        retry_after_at(value, now)
    }

    /// Nanoseconds from `now` until `n` tokens could be taken, counting
    /// neither hard limits nor other consumers; `None` when `n` exceeds the
    /// capacity.
    pub fn time_until_available(&self, n: u32, now: u64) -> (r: Option<u64>)
        requires
            self.wf(),
        ensures
            r == self@.time_until(n, now),
    {
        if n > self.state.capacity {
            return None;
        }
        let mut b = TokenBucket { state: self.state };
        b.refill(now);
        let pause: u64 = match self.state.pause_until {
            Some(p) => if now < p {
                p - now
            } else {
                0
            },
            None => 0,
        };
        let fill: u64 = if b.state.tokens >= n {
            0
        } else {
            b.wait_for_tokens(n)
        };
        Some(if pause > fill { pause } else { fill })
    }
}

/// The outcomes of `k` successive attempts to take one token, all at `now`.
pub open spec fn burst(b: BucketState, now: u64, k: nat) -> Seq<bool>
    decreases k,
{
    if k == 0 {
        Seq::empty()
    } else {
        let (next, ok) = b.try_consume_result(1, now);
        seq![ok].add(burst(next, now, (k - 1) as nat))
    }
}

/// Accounting for the same instant twice changes nothing.
pub proof fn lemma_refill_idempotent(b: BucketState, now: u64)
    ensures
        b.refilled(now).refilled(now) == b.refilled(now),
{
}

/// With no time elapsing, successive attempts to take one token succeed
/// exactly as many times as the bucket holds tokens at that instant, and
/// every later attempt fails: a full bucket grants `capacity` calls, and at
/// no instant is more than `capacity` handed out.
pub proof fn lemma_burst(b: BucketState, now: u64, k: nat)
    requires
        b.wf(),
        !b.in_backoff(now),
    ensures
        burst(b, now, k).len() == k,
        forall|i: int| 0 <= i < k ==> burst(b, now, k)[i] == (i < b.refilled(now).tokens),
    decreases k,
{
    if k > 0 {
        let (next, ok) = b.try_consume_result(1, now);
        lemma_refill_idempotent(b, now);
        assert(next.wf());
        assert(!next.in_backoff(now));
        assert(next.refilled(now) == next);
        lemma_burst(next, now, (k - 1) as nat);
        let rest = burst(next, now, (k - 1) as nat);
        assert forall|i: int| 0 <= i < k implies burst(b, now, k)[i] == (i
            < b.refilled(now).tokens) by {
            if i > 0 {
                assert(burst(b, now, k)[i] == rest[i - 1]);
            }
        }
    }
}

/// Once `capacity / rate` seconds have passed since the last refill, outside
/// backoff, the bucket is full.
pub proof fn lemma_full_after_wait(b: BucketState, t: u64)
    requires
        b.wf(),
        t >= b.last_refill,
        (t - b.last_refill) * b.rate.tokens >= b.capacity * b.scale(),
        !b.in_backoff(t),
    ensures
        b.available(t) == b.capacity,
{
    let raw = b.accrued(t);
    let sc = b.scale();
    assert(sc > 0) by (nonlinear_arith)
        requires
            b.rate.per_secs > 0,
            sc == b.rate.per_secs as int * NANOS_PER_SEC as int,
    ;
    assert(b.capacity * sc > 0) by (nonlinear_arith)
        requires
            b.capacity > 0,
            sc > 0,
    ;
    assert(t > b.last_refill) by (nonlinear_arith)
        requires
            (t - b.last_refill) * b.rate.tokens >= b.capacity * sc,
            b.capacity * sc > 0,
            t >= b.last_refill,
    ;
    assert(raw / sc >= b.capacity) by (nonlinear_arith)
        requires
            raw >= b.capacity * sc,
            sc > 0,
    ;
}

/// A backoff empties the bucket at once, and until its deadline every
/// attempt to take tokens fails and leaves the deadline in place.
pub proof fn lemma_backoff_blocks(b: BucketState, dur: u64, now: u64, n: u32)
    requires
        b.wf(),
        n > 0,
    ensures
        b.backed_off(dur, now).available(now) == 0,
        forall|t: u64|
            t < sat_add(now, dur) ==> {
                let (after, ok) = #[trigger] b.backed_off(dur, now).try_consume_result(n, t);
                !ok && after.pause_until == b.backed_off(dur, now).pause_until
            },
{
}

/// Of two backoffs, the later deadline stands, whichever came last.
pub proof fn lemma_backoff_later_wins(b: BucketState, d1: u64, t1: u64, d2: u64, t2: u64)
    requires
        b.wf(),
    ensures
        b.backed_off(d1, t1).backed_off(d2, t2).pause_until == Some(
            later_deadline(Some(later_deadline(b.pause_until, sat_add(t1, d1))), sat_add(t2, d2)),
        ),
        later_deadline(b.backed_off(d1, t1).pause_until, sat_add(t2, d2)) >= sat_add(t1, d1),
        later_deadline(b.backed_off(d1, t1).pause_until, sat_add(t2, d2)) >= sat_add(t2, d2),
{
}

/// The deadline that a waiting step names is enough: with the clock moving
/// forward and nobody else taking tokens, the step taken at that deadline
/// grants the request.
pub proof fn lemma_wait_is_enough(b: BucketState, n: u32, now: u64)
    requires
        b.wf(),
        now >= b.last_refill,
        !b.in_backoff(now),
        b.refilled(now).tokens < n,
        n <= b.capacity,
        now + b.refilled(now).wait_for_tokens(n) <= u64::MAX,
    ensures
        ({
            let (b1, step) = b.consume_result(n, now);
            let t = (now + b1.wait_for_tokens(n)) as u64;
            &&& step == ConsumeStep::WaitUntil(t)
            &&& b1.consume_result(n, t).1 == ConsumeStep::Granted
        }),
{
    let b1 = b.refilled(now);
    let sc = b1.scale();
    let rt = b1.rate.tokens as int;
    let missing = n - b1.tokens;
    let need = missing * sc - b1.remainder;
    let w = b1.wait_for_tokens(n);
    let t = (now + w) as u64;
    assert(sc > 0) by (nonlinear_arith)
        requires
            b1.rate.per_secs > 0,
            sc == b1.rate.per_secs as int * NANOS_PER_SEC as int,
    ;
    assert(b1.wf());
    assert(need >= 1) by (nonlinear_arith)
        requires
            missing >= 1,
            sc > b1.remainder,
            need == missing * sc - b1.remainder,
    ;
    lemma_fundamental_div_mod(need + rt - 1, rt);
    assert(w * rt >= need) by (nonlinear_arith)
        requires
            w == (need + rt - 1) / rt,
            need + rt - 1 == rt * ((need + rt - 1) / rt) + (need + rt - 1) % rt,
            0 <= (need + rt - 1) % rt < rt,
    ;
    assert(w >= 1) by (nonlinear_arith)
        requires
            w * rt >= need,
            need >= 1,
            rt > 0,
    ;
    assert(b1.last_refill == now);
    let raw = b1.accrued(t);
    assert(raw == w * rt + b1.remainder);
    assert(raw >= missing * sc);
    assert(raw / sc >= missing) by (nonlinear_arith)
        requires
            raw >= missing * sc,
            sc > 0,
    ;
}

} // verus!

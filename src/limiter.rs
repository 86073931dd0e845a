//! The rate limiter: one token bucket and a set of hard limits. An
//! acquisition succeeds only where the bucket and every limit accept it, and
//! a limit's counter is spent only once the bucket has granted the tokens.
use vstd::prelude::*;
use crate::bucket::{BucketState, ConfigError, ConsumeStep, RefillRate, TokenBucket};
use crate::limits::{
    lemma_counters_bounded,
    admits_all,
    committed_all,
    first_violation,
    limits_wf,
    reports,
    rolled_all,
    snapshot_of,
    upserted,
    without,
    HardLimitExceeded,
    HardLimitRegistry,
    LimitModel,
    LimitStatus,
    Period,
};

verus! {

/// What a rate limiter is, as a value.
pub struct LimiterModel {
    pub bucket: BucketState,
    pub limits: Seq<LimitModel>,
}

impl LimiterModel {
    pub open spec fn wf(self) -> bool {
        self.bucket.wf() && limits_wf(self.limits)
    }

    /// A non-blocking acquisition of `n` tokens at `now`: the new state and
    /// the outcome. Limits are checked first and spend nothing on refusal;
    /// they count the call only when the bucket grants it.
    pub open spec fn try_acquire_result(self, n: u32, now: u64, r: Result<bool, HardLimitExceeded>) -> (LimiterModel, bool) {
        let lim = rolled_all(self.limits, now);
        let (b, ok) = self.bucket.try_consume_result(n, now);
        if n == 0 {
            (self, r matches Ok(true))
        } else {
            match r {
                Err(e) => (
                    LimiterModel { bucket: self.bucket, limits: lim },
                    exists|i: int| first_violation(lim, n, i) && reports(e, #[trigger] lim[i], now),
                ),
                Ok(got) => (
                    LimiterModel {
                        bucket: b,
                        limits: if ok {
                            committed_all(lim, n)
                        } else {
                            lim
                        },
                    },
                    admits_all(lim, n) && got == ok,
                ),
            }
        }
    }

    /// One step of a blocking acquisition of `n` tokens at `now`, as above;
    /// a step that waits takes no token and spends no quota.
    pub open spec fn acquire_result(self, n: u32, now: u64, r: Result<ConsumeStep, HardLimitExceeded>) -> (LimiterModel, bool) {
        let lim = rolled_all(self.limits, now);
        let (b, step) = self.bucket.consume_result(n, now);
        if n == 0 {
            (self, r matches Ok(ConsumeStep::Granted))
        } else {
            match r {
                Err(e) => (
                    LimiterModel { bucket: self.bucket, limits: lim },
                    exists|i: int| first_violation(lim, n, i) && reports(e, #[trigger] lim[i], now),
                ),
                Ok(got) => (
                    LimiterModel {
                        bucket: b,
                        limits: if step == ConsumeStep::Granted {
                            committed_all(lim, n)
                        } else {
                            lim
                        },
                    },
                    admits_all(lim, n) && got == step,
                ),
            }
        }
    }
}

/// A step of a blocking acquisition that does not grant the tokens takes
/// none and spends no quota: abandoning the wait after it leaves the bucket
/// and every counter as the passing of time alone would.
pub proof fn lemma_wait_spends_nothing(
    m: LimiterModel,
    n: u32,
    now: u64,
    r: Result<ConsumeStep, HardLimitExceeded>,
)
    requires
        m.wf(),
        m.acquire_result(n, now, r).1,
        !(r matches Ok(ConsumeStep::Granted)),
    ensures
        m.acquire_result(n, now, r).0.bucket == m.bucket || m.acquire_result(n, now, r).0.bucket
            == m.bucket.refilled(now),
        m.acquire_result(n, now, r).0.limits == rolled_all(m.limits, now),
{
}

/// Whatever an acquisition returns, the limiter stays well formed: no
/// bucket holds more than its capacity and no counter exceeds its maximum.
pub proof fn lemma_acquisitions_stay_within_bounds(
    m: LimiterModel,
    n: u32,
    now: u64,
    t: Result<bool, HardLimitExceeded>,
    b: Result<ConsumeStep, HardLimitExceeded>,
)
    requires
        m.wf(),
    ensures
        m.try_acquire_result(n, now, t).1 ==> m.try_acquire_result(n, now, t).0.wf(),
        m.acquire_result(n, now, b).1 ==> m.acquire_result(n, now, b).0.wf(),
{
    lemma_counters_bounded(m.limits, now, n);
}

/// A token bucket composed with hard limits.
pub struct RateLimiter {
    bucket: TokenBucket,
    limits: HardLimitRegistry,
}

impl View for RateLimiter {
    type V = LimiterModel;

    closed spec fn view(&self) -> LimiterModel {
        LimiterModel { bucket: self.bucket@, limits: self.limits@ }
    }
}

impl RateLimiter {
    pub open spec fn wf(&self) -> bool {
        self@.wf()
    }

    /// A limiter with a full bucket of `capacity` tokens refilled at `rate`,
    /// and no hard limit.
    pub fn new(capacity: u32, rate: RefillRate, now: u64) -> (r: Result<RateLimiter, ConfigError>)
        ensures
            match r {
                Ok(l) => {
                    &&& capacity > 0 && rate.tokens > 0 && rate.per_secs > 0
                    &&& l@.bucket == (BucketState {
                        capacity,
                        tokens: capacity,
                        rate,
                        last_refill: now,
                        remainder: 0,
                        pause_until: None,
                    })
                    &&& l@.limits == Seq::<LimitModel>::empty()
                    &&& l.wf()
                },
                Err(e) => if capacity == 0 {
                    e == ConfigError::ZeroCapacity
                } else {
                    (rate.tokens == 0 || rate.per_secs == 0) && e == ConfigError::ZeroRefillRate
                },
            },
    {
        match TokenBucket::new(capacity, rate, now) {
            Ok(bucket) => Ok(RateLimiter { bucket, limits: HardLimitRegistry::new() }),
            Err(e) => Err(e),
        }
    }

    /// Adds or replaces the hard limit called `name`; the bucket is untouched.
    pub fn add_hard_limit(&mut self, name: String, max_calls: u32, period: Period, now: u64)
        requires
            old(self).wf(),
        ensures
            final(self)@.bucket == old(self)@.bucket,
            final(self)@.limits == upserted(
                old(self)@.limits,
                LimitModel { name: name@, max_calls, current_calls: 0, period, period_start: now },
            ),
            final(self).wf(),
    {
        self.limits.add(name, max_calls, period, now);
    }

    /// Drops the hard limit called `name`; the bucket is untouched.
    pub fn remove_hard_limit(&mut self, name: &str)
        requires
            old(self).wf(),
        ensures
            final(self)@.bucket == old(self)@.bucket,
            final(self)@.limits == without(old(self)@.limits, name@),
            final(self).wf(),
    {
        self.limits.remove(name);
    }

    /// Takes `n` tokens without waiting. `Ok(false)` when the bucket cannot
    /// grant them now; an error when a hard limit refuses them.
    pub fn try_acquire(&mut self, n: u32, now: u64) -> (r: Result<bool, HardLimitExceeded>)
        requires
            old(self).wf(),
        ensures
            ({
                let (after, holds) = old(self)@.try_acquire_result(n, now, r);
                final(self)@ == after && holds
            }),
            final(self).wf(),
    {
        if n == 0 {
            return Ok(true);
        }
        match self.limits.check(n, now) {
            Err(e) => Err(e),
            Ok(()) => {
                let ok = self.bucket.try_consume(n, now);
                if ok {
                    self.limits.commit(n);
                }
                Ok(ok)
            },
        }
    }

    /// One step of a blocking acquisition of `n` tokens: `Granted` once they
    /// are taken, else when to look again. The caller waits and calls again
    /// on the deadline or on a wake signal; abandoning the wait between
    /// steps leaves no token taken and no quota spent.
    pub fn acquire(&mut self, n: u32, now: u64) -> (r: Result<ConsumeStep, HardLimitExceeded>)
        requires
            old(self).wf(),
        ensures
            ({
                let (after, holds) = old(self)@.acquire_result(n, now, r);
                final(self)@ == after && holds
            }),
            final(self).wf(),
    {
        if n == 0 {
            return Ok(ConsumeStep::Granted);
        }
        match self.limits.check(n, now) {
            Err(e) => Err(e),
            Ok(()) => {
                let step = self.bucket.consume(n, now);
                if step == ConsumeStep::Granted {
                    self.limits.commit(n);
                }
                Ok(step)
            },
        }
    }

    /// Pauses the bucket for `dur` nanoseconds from `now` (the later deadline
    /// stands) and empties it; the hard limits are untouched.
    pub fn backoff_for(&mut self, dur: u64, now: u64)
        requires
            old(self).wf(),
        ensures
            final(self)@.bucket == old(self)@.bucket.backed_off(dur, now),
            final(self)@.limits == old(self)@.limits,
            final(self).wf(),
    {
        self.bucket.backoff_for(dur, now);
    }

    /// The tokens that may be taken at `now`, after a refill.
    pub fn available_tokens(&mut self, now: u64) -> (r: u32)
        requires
            old(self).wf(),
        ensures
            r == old(self)@.bucket.available(now),
            final(self)@.bucket == old(self)@.bucket.refilled(now),
            final(self)@.limits == old(self)@.limits,
            final(self).wf(),
    {
        self.bucket.available_tokens(now)
    }

    /// An estimate from the bucket alone of the nanoseconds until `n` tokens
    /// could be taken; `None` when `n` exceeds the capacity.
    pub fn time_until_available(&self, n: u32, now: u64) -> (r: Option<u64>)
        requires
            self.wf(),
        ensures
            r == self@.bucket.time_until(n, now),
    {
        self.bucket.time_until_available(n, now)
    }

    /// A snapshot of every hard limit at `now`.
    pub fn hard_limit_status(&self, now: u64) -> (r: Vec<LimitStatus>)
        requires
            self.wf(),
        ensures
            r@.len() == self@.limits.len(),
            forall|i: int| 0 <= i < r@.len() ==> snapshot_of(#[trigger] r@[i], self@.limits[i], now),
    {
        self.limits.status(now)
    }
}

} // verus!

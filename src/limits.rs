//! Hard quotas: named limits of a number of calls per rolling period.
//!
//! A window starts at first use after a reset and rolls over lazily, when a
//! limit is next looked at after its period has passed.
use vstd::prelude::*;

verus! {

/// The length of a quota window.
#[derive(Clone, Copy, Debug, PartialEq, Eq, Structural)]
pub enum Period {
    Minute,
    Hour,
    Day,
    /// A twelfth of an average Gregorian year.
    Month,
    /// An average Gregorian year, 365.2425 days.
    Year,
}

/// The length of a period in seconds.
pub open spec fn period_secs(p: Period) -> nat {
    match p {
        Period::Minute => 60,
        Period::Hour => 3_600,
        Period::Day => 86_400,
        Period::Month => 2_629_746,
        Period::Year => 31_556_952,
    }
}

/// The length of a period in nanoseconds.
pub open spec fn period_nanos(p: Period) -> nat {
    period_secs(p) * 1_000_000_000
}

impl Period {
    /// The length of the period in nanoseconds.
    pub fn nanos(&self) -> (r: u64)
        ensures
            r == period_nanos(*self),
    {
        match self {
            Period::Minute => 60_000_000_000,
            Period::Hour => 3_600_000_000_000,
            Period::Day => 86_400_000_000_000,
            Period::Month => 2_629_746_000_000_000,
            Period::Year => 31_556_952_000_000_000,
        }
    }
}

/// What a hard limit is, as a value.
pub struct LimitModel {
    pub name: Seq<char>,
    pub max_calls: u32,
    pub current_calls: u32,
    pub period: Period,
    pub period_start: u64,
}

/// Whether the window of `l` has run its full period at `now`.
pub open spec fn expired(l: LimitModel, now: u64) -> bool {
    now >= l.period_start && now - l.period_start >= period_nanos(l.period)
}

/// The limit after a lazy rollover at `now`.
pub open spec fn rolled(l: LimitModel, now: u64) -> LimitModel {
    if expired(l, now) {
        LimitModel { current_calls: 0, period_start: now, ..l }
    } else {
        l
    }
}

/// Whether `n` more calls would exceed the limit.
pub open spec fn violates(l: LimitModel, n: u32) -> bool {
    l.current_calls + n > l.max_calls
}

/// Nanoseconds left in the window at `now`, clamped to zero.
pub open spec fn reset_in(l: LimitModel, now: u64) -> nat {
    let elapsed: int = if now >= l.period_start {
        now - l.period_start
    } else {
        0
    };
    if period_nanos(l.period) > elapsed {
        (period_nanos(l.period) - elapsed) as nat
    } else {
        0
    }
}

/// The limit after `n` calls are counted.
pub open spec fn committed(l: LimitModel, n: u32) -> LimitModel {
    LimitModel { current_calls: (l.current_calls + n) as u32, ..l }
}

pub open spec fn rolled_all(s: Seq<LimitModel>, now: u64) -> Seq<LimitModel> {
    s.map_values(|l: LimitModel| rolled(l, now))
}

pub open spec fn committed_all(s: Seq<LimitModel>, n: u32) -> Seq<LimitModel> {
    s.map_values(|l: LimitModel| committed(l, n))
}

/// Whether every limit admits `n` more calls.
pub open spec fn admits_all(s: Seq<LimitModel>, n: u32) -> bool {
    forall|i: int| 0 <= i < s.len() ==> !violates(#[trigger] s[i], n)
}

/// Whether `i` is the first limit of `s` that `n` more calls would exceed.
pub open spec fn first_violation(s: Seq<LimitModel>, n: u32, i: int) -> bool {
    &&& 0 <= i < s.len()
    &&& violates(s[i], n)
    &&& forall|j: int| 0 <= j < i ==> !violates(#[trigger] s[j], n)
}

pub open spec fn has_name(s: Seq<LimitModel>, name: Seq<char>) -> bool {
    exists|i: int| 0 <= i < s.len() && (#[trigger] s[i]).name == name
}

/// The position of the limit called `name`, when there is one.
pub open spec fn index_of(s: Seq<LimitModel>, name: Seq<char>) -> int {
    choose|i: int| 0 <= i < s.len() && (#[trigger] s[i]).name == name
}

/// `s` with `l` in place of the limit of the same name, or appended.
pub open spec fn upserted(s: Seq<LimitModel>, l: LimitModel) -> Seq<LimitModel> {
    if has_name(s, l.name) {
        s.update(index_of(s, l.name), l)
    } else {
        s.push(l)
    }
}

/// `s` without the limit called `name`.
pub open spec fn without(s: Seq<LimitModel>, name: Seq<char>) -> Seq<LimitModel> {
    if has_name(s, name) {
        s.remove(index_of(s, name))
    } else {
        s
    }
}

/// Names are unique and no counter is above its maximum.
pub open spec fn limits_wf(s: Seq<LimitModel>) -> bool {
    &&& forall|i: int| 0 <= i < s.len() ==> (#[trigger] s[i]).current_calls <= s[i].max_calls
    &&& forall|i: int, j: int| 0 <= i < j < s.len() ==> (#[trigger] s[i]).name != (#[trigger] s[j]).name
}

/// Once a window has run its full period, the next look at the limit finds
/// its counter reset and admits up to `max_calls` calls again.
pub proof fn lemma_rollover_resets(s: Seq<LimitModel>, now: u64, n: u32)
    requires
        limits_wf(s),
        forall|i: int| 0 <= i < s.len() ==> expired(#[trigger] s[i], now),
        forall|i: int| 0 <= i < s.len() ==> n <= (#[trigger] s[i]).max_calls,
    ensures
        forall|i: int|
            0 <= i < s.len() ==> (#[trigger] rolled_all(s, now)[i]).current_calls == 0
                && rolled_all(s, now)[i].period_start == now,
        admits_all(rolled_all(s, now), n),
{
    assert forall|i: int| 0 <= i < s.len() implies !violates(#[trigger] rolled_all(s, now)[i], n) by {
        assert(expired(s[i], now));
        assert(n <= s[i].max_calls);
    }
}

/// Rolling windows over and counting admitted calls keep every counter
/// within its maximum and every name unique.
pub proof fn lemma_counters_bounded(s: Seq<LimitModel>, now: u64, n: u32)
    requires
        limits_wf(s),
    ensures
        limits_wf(rolled_all(s, now)),
        admits_all(rolled_all(s, now), n) ==> limits_wf(committed_all(rolled_all(s, now), n)),
{
    let r = rolled_all(s, now);
    assert forall|i: int, j: int| 0 <= i < j < r.len() implies (#[trigger] r[i]).name != (
    #[trigger] r[j]).name by {
        assert(s[i].name != s[j].name);
    }
    assert forall|i: int| 0 <= i < r.len() implies (#[trigger] r[i]).current_calls
        <= r[i].max_calls by {
        assert(s[i].current_calls <= s[i].max_calls);
    }
    if admits_all(r, n) {
        let c = committed_all(r, n);
        assert forall|i: int, j: int| 0 <= i < j < c.len() implies (#[trigger] c[i]).name != (
        #[trigger] c[j]).name by {
            assert(r[i].name != r[j].name);
        }
        assert forall|i: int| 0 <= i < c.len() implies (#[trigger] c[i]).current_calls
            <= c[i].max_calls by {
            assert(!violates(r[i], n));
        }
    }
}

/// A named cap of `max_calls` calls per rolling `period`.
pub struct HardLimit {
    pub name: String,
    pub max_calls: u32,
    pub current_calls: u32,
    pub period: Period,
    pub period_start: u64,
}

impl View for HardLimit {
    type V = LimitModel;

    open spec fn view(&self) -> LimitModel {
        LimitModel {
            name: self.name@,
            max_calls: self.max_calls,
            current_calls: self.current_calls,
            period: self.period,
            period_start: self.period_start,
        }
    }
}

/// The error of an acquisition that a hard limit refuses.
pub struct HardLimitExceeded {
    pub name: String,
    pub period: Period,
    pub current: u32,
    pub max: u32,
    pub reset_in: u64,
}

/// Whether `e` reports limit `l` at `now`.
pub open spec fn reports(e: HardLimitExceeded, l: LimitModel, now: u64) -> bool {
    &&& e.name@ == l.name
    &&& e.period == l.period
    &&& e.current == l.current_calls
    &&& e.max == l.max_calls
    &&& e.reset_in == reset_in(l, now)
}

/// A snapshot of one limit.
pub struct LimitStatus {
    pub name: String,
    pub max: u32,
    pub current: u32,
    pub remaining: u32,
    pub period: Period,
    pub reset_in: u64,
}

/// Whether `st` is the snapshot of `l` at `now`: an expired window counts
/// no calls and resets in no time.
pub open spec fn snapshot_of(st: LimitStatus, l: LimitModel, now: u64) -> bool {
    let current = if expired(l, now) {
        0
    } else {
        l.current_calls
    };
    &&& st.name@ == l.name
    &&& st.max == l.max_calls
    &&& st.current == current
    &&& st.remaining == l.max_calls - current
    &&& st.period == l.period
    &&& st.reset_in == reset_in(l, now)
}

/// The set of hard limits, each independent of the others.
pub struct HardLimitRegistry {
    limits: Vec<HardLimit>,
}

impl View for HardLimitRegistry {
    type V = Seq<LimitModel>;

    closed spec fn view(&self) -> Seq<LimitModel> {
        self.limits@.map_values(|l: HardLimit| l@)
    }
}

/// Nanoseconds left in the window of `l` at `now`, clamped to zero.
fn reset_in_of(l: &HardLimit, now: u64) -> (r: u64)
    ensures
        r == reset_in(l@, now),
{
    let period = l.period.nanos();
    let elapsed: u64 = if now >= l.period_start {
        now - l.period_start
    } else {
        0
    };
    if period > elapsed {
        period - elapsed
    } else {
        0
    }
}

impl HardLimitRegistry {
    pub open spec fn wf(&self) -> bool {
        limits_wf(self@)
    }

    /// A registry with no limits.
    pub fn new() -> (r: HardLimitRegistry)
        ensures
            r@ == Seq::<LimitModel>::empty(),
            r.wf(),
    {
        let r = HardLimitRegistry { limits: Vec::new() };
        assert(r@ =~= Seq::<LimitModel>::empty());
        r
    }

    /// The number of limits.
    pub fn len(&self) -> (r: usize)
        ensures
            r == self@.len(),
    {
        self.limits.len()
    }

    /// The position of the limit called `name`.
    fn position(&self, name: &String) -> (r: Option<usize>)
        requires
            self.wf(),
        ensures
            match r {
                Some(i) => i < self@.len() && i == index_of(self@, name@) && has_name(self@, name@),
                None => !has_name(self@, name@),
            },
    {
        let mut i: usize = 0;
        while i < self.limits.len()
            invariant
                i <= self.limits.len(),
                self.wf(),
                forall|j: int| 0 <= j < i ==> (#[trigger] self@[j]).name != name@,
            decreases self.limits.len() - i,
        {
            if self.limits[i].name == *name {
                assert(self@[i as int].name == name@);
                let ghost k = index_of(self@, name@);
                assert(self@[k].name == name@);
                assert(k == i) by {
                    if k != i as int {
                        if k < i {
                            assert(self@[k].name != self@[i as int].name);
                        } else {
                            assert(self@[i as int].name != self@[k].name);
                        }
                    }
                }
                return Some(i);
            }
            i += 1;
        }
        None
    }

    /// Adds a limit of `max_calls` calls per `period`, replacing and
    /// resetting any limit of the same name; its window starts at `now`.
    pub fn add(&mut self, name: String, max_calls: u32, period: Period, now: u64)
        requires
            old(self).wf(),
        ensures
            final(self)@ == upserted(
                old(self)@,
                LimitModel { name: name@, max_calls, current_calls: 0, period, period_start: now },
            ),
            final(self).wf(),
    {
        let entry = HardLimit { name, max_calls, current_calls: 0, period, period_start: now };
        match self.position(&entry.name) {
            Some(i) => {
                self.limits.set(i, entry);
                assert(self@ =~= old(self)@.update(i as int, entry@));
            },
            None => {
                self.limits.push(entry);
                assert(self@ =~= old(self)@.push(entry@));
            },
        }
    }

    /// Drops the limit called `name`, if there is one.
    pub fn remove(&mut self, name: &str)
        requires
            old(self).wf(),
        ensures
            final(self)@ == without(old(self)@, name@),
            final(self).wf(),
    {
        let key = String::from_str(name);
        match self.position(&key) {
            Some(i) => {
                self.limits.remove(i);
                assert(self@ =~= old(self)@.remove(i as int));
            },
            None => {},
        }
    }

    /// Rolls over every window whose period has passed at `now`.
    pub fn roll(&mut self, now: u64)
        requires
            old(self).wf(),
        ensures
            final(self)@ == rolled_all(old(self)@, now),
            final(self).wf(),
    {
        let ghost start = self@;
        let mut i: usize = 0;
        while i < self.limits.len()
            invariant
                i <= self.limits.len(),
                self@.len() == start.len(),
                limits_wf(start),
                forall|j: int| 0 <= j < i ==> #[trigger] self@[j] == rolled(start[j], now),
                forall|j: int| i <= j < self@.len() ==> #[trigger] self@[j] == start[j],
            decreases self.limits.len() - i,
        {
            let ghost prev = self@;
            let period = self.limits[i].period.nanos();
            let begin = self.limits[i].period_start;
            if now >= begin && now - begin >= period {
                self.limits[i].current_calls = 0;
                self.limits[i].period_start = now;
            }
            assert(self@ =~= prev.update(i as int, rolled(prev[i as int], now)));
            assert(self@[i as int] == rolled(start[i as int], now));
            i += 1;
        }
        assert(self@ =~= rolled_all(start, now));
    }

    /// Rolls over expired windows, then reports the first limit that `n`
    /// more calls would exceed. No counter is spent.
    pub fn check(&mut self, n: u32, now: u64) -> (r: Result<(), HardLimitExceeded>)
        requires
            old(self).wf(),
        ensures
            final(self)@ == rolled_all(old(self)@, now),
            final(self).wf(),
            match r {
                Ok(()) => admits_all(final(self)@, n),
                Err(e) => exists|i: int|
                    first_violation(final(self)@, n, i) && reports(e, #[trigger] final(self)@[i], now),
            },
    {
        self.roll(now);
        let mut i: usize = 0;
        while i < self.limits.len()
            invariant
                i <= self.limits.len(),
                self@ == rolled_all(old(self)@, now),
                self.wf(),
                forall|j: int| 0 <= j < i ==> !violates(#[trigger] self@[j], n),
            decreases self.limits.len() - i,
        {
            let l = &self.limits[i];
            if l.current_calls as u64 + n as u64 > l.max_calls as u64 {
                let e = HardLimitExceeded {
                    name: l.name.clone(),
                    period: l.period,
                    current: l.current_calls,
                    max: l.max_calls,
                    reset_in: reset_in_of(l, now),
                };
                assert(first_violation(self@, n, i as int));
                return Err(e);
            }
            i += 1;
        }
        Ok(())
    }

    /// Counts `n` calls against every limit.
    pub fn commit(&mut self, n: u32)
        requires
            old(self).wf(),
            admits_all(old(self)@, n),
        ensures
            final(self)@ == committed_all(old(self)@, n),
            final(self).wf(),
    {
        let ghost start = self@;
        let mut i: usize = 0;
        while i < self.limits.len()
            invariant
                i <= self.limits.len(),
                self@.len() == start.len(),
                limits_wf(start),
                admits_all(start, n),
                forall|j: int| 0 <= j < i ==> #[trigger] self@[j] == committed(start[j], n),
                forall|j: int| i <= j < self@.len() ==> #[trigger] self@[j] == start[j],
            decreases self.limits.len() - i,
        {
            let ghost prev = self@;
            assert(!violates(start[i as int], n));
            assert(self.limits@[i as int]@ == prev[i as int]);
            self.limits[i].current_calls = self.limits[i].current_calls + n;
            assert(self@ =~= prev.update(i as int, committed(prev[i as int], n)));
            assert(self@[i as int] == committed(start[i as int], n));
            i += 1;
        }
        assert(self@ =~= committed_all(start, n));
    }

    /// A snapshot of every limit at `now`, in order; nothing is changed.
    pub fn status(&self, now: u64) -> (r: Vec<LimitStatus>)
        requires
            self.wf(),
        ensures
            r@.len() == self@.len(),
            forall|i: int| 0 <= i < r@.len() ==> snapshot_of(#[trigger] r@[i], self@[i], now),
    {
        let mut out: Vec<LimitStatus> = Vec::new();
        let mut i: usize = 0;
        while i < self.limits.len()
            invariant
                i <= self.limits.len(),
                out@.len() == i,
                self.wf(),
                forall|j: int| 0 <= j < i ==> snapshot_of(#[trigger] out@[j], self@[j], now),
            decreases self.limits.len() - i,
        {
            let l = &self.limits[i];
            assert(self@[i as int] == l@);
            assert(l.current_calls <= l.max_calls);
            let period = l.period.nanos();
            let current: u32 = if now >= l.period_start && now - l.period_start >= period {
                0
            } else {
                l.current_calls
            };
            out.push(
                LimitStatus {
                    name: l.name.clone(),
                    max: l.max_calls,
                    current,
                    remaining: l.max_calls - current,
                    period: l.period,
                    reset_in: reset_in_of(l, now),
                },
            );
            i += 1;
        }
        out
    }
}

} // verus!

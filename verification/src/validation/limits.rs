//! Admission control: a sliding one-minute window plus a per-day counter.
//!
//! Every time-dependent operation is verified against an explicit `now_ms`
//! argument (milliseconds since the Unix epoch); the methods without that
//! argument read the clock once and delegate. The daily counter resets
//! lazily the first time an admission is asked for on a new UTC day, and
//! resetting the day also clears the minute window.

use vstd::prelude::*;

use crate::clock::now_millis;
use crate::clock::spec_day_of;
use crate::clock::MINUTE_MS;

verus! {

/// Why an admission was denied: the minute window is full (wait the given
/// number of milliseconds), or the daily cap is spent.
#[derive(Debug, Clone, Copy)]
pub enum RateLimitError {
    MinuteLimit { wait_time_ms: u64 },
    DailyLimit { used: usize, max: usize },
}

/// A point-in-time snapshot of the limiter.
#[derive(Debug, Clone, Copy)]
pub struct RateLimiterStats {
    pub requests_this_minute: usize,
    pub requests_today: usize,
    pub max_per_minute: usize,
    pub max_per_day: usize,
    pub last_reset_day: u64,
}

/// An admission timestamp `t` still counts against the window at `now_ms`:
/// it counts until `t + 60s`, exclusive of the instant exactly 60s later.
pub open spec fn spec_in_window(t: u64, now_ms: u64) -> bool {
    t + MINUTE_MS > now_ms
}

/// The timestamps of `s` still inside the minute window at `now_ms`,
/// in their original order.
pub open spec fn window_filter(s: Seq<u64>, now_ms: u64) -> Seq<u64>
    decreases s.len(),
{
    if s.len() == 0 {
        Seq::empty()
    } else if spec_in_window(s[0], now_ms) {
        seq![s[0]] + window_filter(s.drop_first(), now_ms)
    } else {
        window_filter(s.drop_first(), now_ms)
    }
}

proof fn lemma_window_filter_members(s: Seq<u64>, now_ms: u64)
    ensures
        forall|j: int|
            0 <= j < window_filter(s, now_ms).len() ==> spec_in_window(
                #[trigger] window_filter(s, now_ms)[j],
                now_ms,
            ),
    decreases s.len(),
{
    if s.len() > 0 {
        lemma_window_filter_members(s.drop_first(), now_ms);
        let rest = window_filter(s.drop_first(), now_ms);
        if spec_in_window(s[0], now_ms) {
            assert(window_filter(s, now_ms) == seq![s[0]] + rest);
            assert forall|j: int| 0 <= j < window_filter(s, now_ms).len() implies spec_in_window(
                #[trigger] window_filter(s, now_ms)[j],
                now_ms,
            ) by {
                if j > 0 {
                    assert(window_filter(s, now_ms)[j] == rest[j - 1]);
                }
            }
        }
    }
}

proof fn lemma_window_filter_all(s: Seq<u64>, now_ms: u64)
    requires
        forall|j: int| 0 <= j < s.len() ==> spec_in_window(#[trigger] s[j], now_ms),
    ensures
        window_filter(s, now_ms) == s,
    decreases s.len(),
{
    if s.len() > 0 {
        assert(forall|j: int|
            0 <= j < s.drop_first().len() ==> spec_in_window(#[trigger] s.drop_first()[j], now_ms));
        lemma_window_filter_all(s.drop_first(), now_ms);
        assert(seq![s[0]] + s.drop_first() =~= s);
    }
}

/// How long a caller must wait until the window entry `front` ages out,
/// seen from `now_ms`.
pub open spec fn spec_wait_ms(front: u64, now_ms: u64) -> int {
    if front >= now_ms {
        MINUTE_MS as int
    } else {
        MINUTE_MS - (now_ms - front)
    }
}

/// Tracks a sliding one-minute window of admission timestamps and a daily
/// counter that resets at UTC day rollover.
pub struct RateLimiter {
    requests: Vec<u64>,
    daily_count: usize,
    last_reset_day: u64,
    max_per_minute: usize,
    max_per_day: usize,
}

/// The complete admission step: how `check_and_update_at(now_ms)` takes
/// `pre` to `post` and what it returns. Admission and recording are one
/// step: an `Ok` has already pushed its timestamp and counted against the
/// day, so no two callers can both see spare capacity.
pub open spec fn admit_transition(
    pre: RateLimiter,
    post: RateLimiter,
    now_ms: u64,
    r: Result<(), RateLimitError>,
) -> bool {
    let day = spec_day_of(now_ms);
    let base_requests = if day != pre.spec_last_reset_day() {
        Seq::<u64>::empty()
    } else {
        pre.spec_requests()
    };
    let base_daily = if day != pre.spec_last_reset_day() {
        0int
    } else {
        pre.spec_daily_count() as int
    };
    let kept = window_filter(base_requests, now_ms);
    &&& post.spec_max_per_minute() == pre.spec_max_per_minute()
    &&& post.spec_max_per_day() == pre.spec_max_per_day()
    &&& post.spec_last_reset_day() == day
    &&& match r {
        Err(RateLimitError::MinuteLimit { wait_time_ms }) => {
            &&& kept.len() >= pre.spec_max_per_minute()
            &&& kept.len() > 0
            &&& wait_time_ms == spec_wait_ms(kept[0], now_ms)
            &&& post.spec_requests() == kept
            &&& post.spec_daily_count() == base_daily
        },
        Err(RateLimitError::DailyLimit { used, max }) => {
            &&& !(kept.len() >= pre.spec_max_per_minute() && kept.len() > 0)
            &&& base_daily >= pre.spec_max_per_day()
            &&& used == base_daily
            &&& max == pre.spec_max_per_day()
            &&& post.spec_requests() == kept
            &&& post.spec_daily_count() == base_daily
        },
        Ok(()) => {
            &&& !(kept.len() >= pre.spec_max_per_minute() && kept.len() > 0)
            &&& base_daily < pre.spec_max_per_day()
            &&& post.spec_daily_count() == base_daily + 1
            &&& post.spec_requests() == if pre.spec_max_per_minute() == 0 {
                Seq::<u64>::empty()
            } else {
                kept.push(now_ms)
            }
        },
    }
}

impl RateLimiter {
    pub closed spec fn spec_requests(&self) -> Seq<u64> {
        self.requests@
    }

    pub closed spec fn spec_daily_count(&self) -> usize {
        self.daily_count
    }

    pub closed spec fn spec_last_reset_day(&self) -> u64 {
        self.last_reset_day
    }

    pub closed spec fn spec_max_per_minute(&self) -> usize {
        self.max_per_minute
    }

    pub closed spec fn spec_max_per_day(&self) -> usize {
        self.max_per_day
    }

    /// A fresh limiter with the given caps, no admissions recorded, and the
    /// day taken from the clock.
    pub fn new(max_per_minute: usize, max_per_day: usize) -> (r: RateLimiter)
        ensures
            r.spec_requests() == Seq::<u64>::empty(),
            r.spec_daily_count() == 0,
            r.spec_max_per_minute() == max_per_minute,
            r.spec_max_per_day() == max_per_day,
    {
        let now: u64 = now_millis();
        Self::new_at(max_per_minute, max_per_day, now)
    }

    /// A fresh limiter whose day is taken from the given instant.
    pub fn new_at(max_per_minute: usize, max_per_day: usize, now_ms: u64) -> (r: RateLimiter)
        ensures
            r.spec_requests() == Seq::<u64>::empty(),
            r.spec_daily_count() == 0,
            r.spec_last_reset_day() == spec_day_of(now_ms),
            r.spec_max_per_minute() == max_per_minute,
            r.spec_max_per_day() == max_per_day,
    {
        RateLimiter {
            requests: Vec::new(),
            daily_count: 0,
            last_reset_day: crate::clock::day_of(now_ms),
            max_per_minute,
            max_per_day,
        }
    }

    /// Ask for admission now: reads the clock once and performs the
    /// admission step for that instant.
    pub fn check_and_update(&mut self) -> (r: Result<(), RateLimitError>)
        ensures
            exists|now_ms: u64| admit_transition(*old(self), *final(self), now_ms, r),
    {
        let now: u64 = now_millis();
        let r = self.check_and_update_at(now);
        proof {
            assert(admit_transition(*old(self), *self, now, r));
        }
        r
    }

    /// The admission step at the instant `now_ms`: roll the day over if it
    /// changed, drop window entries older than one minute, then admit and
    /// record, or deny with the reason.
    pub fn check_and_update_at(&mut self, now_ms: u64) -> (r: Result<(), RateLimitError>)
        ensures
            admit_transition(*old(self), *final(self), now_ms, r),
    {
        let today: u64 = crate::clock::day_of(now_ms);
        if today != self.last_reset_day {
            self.daily_count = 0;
            self.last_reset_day = today;
            self.requests.clear();
        }

        let ghost base = self.requests@;
        let mut kept: Vec<u64> = Vec::new();
        proof {
            assert(self.requests@.skip(0) =~= self.requests@);
            assert(kept@ + window_filter(self.requests@, now_ms) =~= window_filter(base, now_ms));
        }
        let mut i: usize = 0;
        while i < self.requests.len()
            invariant
                i <= self.requests@.len(),
                window_filter(base, now_ms) == kept@ + window_filter(
                    self.requests@.skip(i as int),
                    now_ms,
                ),
                base == self.requests@,
            decreases self.requests@.len() - i,
        {
            let t: u64 = self.requests[i];
            proof {
                assert(self.requests@.skip(i as int)[0] == t);
                assert(self.requests@.skip(i as int).drop_first() =~= self.requests@.skip(
                    i + 1 as int,
                ));
            }
            if t >= now_ms || now_ms - t < MINUTE_MS {
                kept.push(t);
                proof {
                    assert(kept@.drop_last() + (seq![t] + window_filter(
                        self.requests@.skip(i + 1 as int),
                        now_ms,
                    )) =~= kept@ + window_filter(self.requests@.skip(i + 1 as int), now_ms));
                }
            }
            i = i + 1;
        }
        proof {
            assert(self.requests@.skip(self.requests@.len() as int) =~= Seq::<u64>::empty());
            assert(kept@ =~= window_filter(base, now_ms));
        }
        self.requests = kept;

        if self.requests.len() >= self.max_per_minute && self.requests.len() > 0 {
            let front: u64 = self.requests[0];
            proof {
                lemma_window_filter_members(base, now_ms);
            }
            let elapsed: u64 = if front >= now_ms {
                0
            } else {
                now_ms - front
            };
            let wait: u64 = MINUTE_MS - elapsed;
            return Err(RateLimitError::MinuteLimit { wait_time_ms: wait });
        }

        if self.daily_count >= self.max_per_day {
            return Err(
                RateLimitError::DailyLimit { used: self.daily_count, max: self.max_per_day },
            );
        }

        self.requests.push(now_ms);
        self.daily_count = self.daily_count + 1;
        if self.max_per_minute == 0 {
            self.requests.clear();
        }
        Ok(())
    }

    /// How many admissions the daily cap still allows.
    pub fn remaining_today(&self) -> (r: usize)
        ensures
            r == if self.spec_daily_count() <= self.spec_max_per_day() {
                self.spec_max_per_day() - self.spec_daily_count()
            } else {
                0int
            },
    {
        if self.daily_count <= self.max_per_day {
            self.max_per_day - self.daily_count
        } else {
            0
        }
    }

    /// How many entries the minute window still has room for, counted
    /// against the recorded (untrimmed) window.
    pub fn remaining_this_minute(&self) -> (r: usize)
        ensures
            r == if self.spec_requests().len() <= self.spec_max_per_minute() {
                self.spec_max_per_minute() - self.spec_requests().len()
            } else {
                0int
            },
    {
        if self.requests.len() <= self.max_per_minute {
            self.max_per_minute - self.requests.len()
        } else {
            0
        }
    }

    /// When the window will next admit, seen from the clock.
    pub fn next_available(&self) -> (r: Option<u64>)
        ensures
            exists|now_ms: u64| r == self.spec_next_available_at(now_ms),
    {
        let now: u64 = now_millis();
        let r = self.next_available_at(now);
        proof {
            assert(r == self.spec_next_available_at(now));
        }
        r
    }

    /// What `next_available_at` returns at the instant `now_ms`.
    pub open spec fn spec_next_available_at(&self, now_ms: u64) -> Option<u64> {
        if self.spec_requests().len() >= self.spec_max_per_minute() && self.spec_requests().len()
            > 0 && spec_in_window(self.spec_requests()[0], now_ms) {
            Some(spec_wait_ms(self.spec_requests()[0], now_ms) as u64)
        } else {
            None
        }
    }

    /// The wait until the oldest recorded window entry ages out, if the
    /// window is at capacity and that entry is still inside the minute.
    pub fn next_available_at(&self, now_ms: u64) -> (r: Option<u64>)
        ensures
            r == self.spec_next_available_at(now_ms),
    {
        if self.requests.len() >= self.max_per_minute && self.requests.len() > 0 {
            let front: u64 = self.requests[0];
            let elapsed: u64 = if front >= now_ms {
                0
            } else {
                now_ms - front
            };
            if elapsed < MINUTE_MS {
                return Some(MINUTE_MS - elapsed);
            }
        }
        None
    }

    /// Clear the daily counter and the window, and restart the day from the
    /// clock.
    pub fn reset_daily_count(&mut self)
        ensures
            final(self).spec_requests() == Seq::<u64>::empty(),
            final(self).spec_daily_count() == 0,
            final(self).spec_max_per_minute() == old(self).spec_max_per_minute(),
            final(self).spec_max_per_day() == old(self).spec_max_per_day(),
    {
        let now: u64 = now_millis();
        self.daily_count = 0;
        self.last_reset_day = crate::clock::day_of(now);
        self.requests.clear();
    }

    /// A snapshot of counters and caps.
    pub fn get_stats(&self) -> (r: RateLimiterStats)
        ensures
            r.requests_this_minute == self.spec_requests().len(),
            r.requests_today == self.spec_daily_count(),
            r.max_per_minute == self.spec_max_per_minute(),
            r.max_per_day == self.spec_max_per_day(),
            r.last_reset_day == self.spec_last_reset_day(),
    {
        RateLimiterStats {
            requests_this_minute: self.requests.len(),
            requests_today: self.daily_count,
            max_per_minute: self.max_per_minute,
            max_per_day: self.max_per_day,
            last_reset_day: self.last_reset_day,
        }
    }

    /// Change both caps; admissions already recorded are kept.
    pub fn update_limits(&mut self, max_per_minute: usize, max_per_day: usize)
        ensures
            final(self).spec_max_per_minute() == max_per_minute,
            final(self).spec_max_per_day() == max_per_day,
            final(self).spec_requests() == old(self).spec_requests(),
            final(self).spec_daily_count() == old(self).spec_daily_count(),
            final(self).spec_last_reset_day() == old(self).spec_last_reset_day(),
    {
        self.max_per_minute = max_per_minute;
        self.max_per_day = max_per_day;
    }
}

/// Within one UTC day, the minute window admits while it holds fewer than
/// `max_per_minute` live entries and the daily budget remains, and denies
/// the call after `max_per_minute` admissions whose timestamps are still
/// inside the rolling 60-second window, quoting the wait until the oldest
/// entry ages out.
pub proof fn lemma_minute_window_admission(
    pre: RateLimiter,
    post: RateLimiter,
    now_ms: u64,
    r: Result<(), RateLimitError>,
)
    requires
        admit_transition(pre, post, now_ms, r),
        spec_day_of(now_ms) == pre.spec_last_reset_day(),
    ensures
        window_filter(pre.spec_requests(), now_ms).len() >= pre.spec_max_per_minute()
            && window_filter(pre.spec_requests(), now_ms).len() > 0 ==> (r matches Err(
        RateLimitError::MinuteLimit { wait_time_ms }) && wait_time_ms == spec_wait_ms(
            window_filter(pre.spec_requests(), now_ms)[0],
            now_ms,
        )),
        window_filter(pre.spec_requests(), now_ms).len() < pre.spec_max_per_minute()
            && pre.spec_daily_count() < pre.spec_max_per_day() ==> r is Ok,
{
}

/// After the oldest window entry ages past 60 seconds, one more admission
/// succeeds: a window that was at capacity, once its first timestamp has
/// left the rolling minute while the rest remain inside, admits again.
pub proof fn lemma_window_slides(
    pre: RateLimiter,
    post: RateLimiter,
    now_ms: u64,
    r: Result<(), RateLimitError>,
)
    requires
        admit_transition(pre, post, now_ms, r),
        spec_day_of(now_ms) == pre.spec_last_reset_day(),
        pre.spec_daily_count() < pre.spec_max_per_day(),
        pre.spec_requests().len() == pre.spec_max_per_minute(),
        pre.spec_max_per_minute() >= 1,
        !spec_in_window(pre.spec_requests()[0], now_ms),
        forall|j: int|
            1 <= j < pre.spec_requests().len() ==> spec_in_window(
                #[trigger] pre.spec_requests()[j],
                now_ms,
            ),
    ensures
        r is Ok,
{
    let s = pre.spec_requests();
    let rest = s.drop_first();
    assert(window_filter(s, now_ms) == window_filter(rest, now_ms));
    assert(forall|j: int| 0 <= j < rest.len() ==> spec_in_window(#[trigger] rest[j], now_ms));
    lemma_window_filter_all(rest, now_ms);
    assert(window_filter(s, now_ms).len() < pre.spec_max_per_minute());
}

/// Once the daily counter has reached the daily cap, the call is denied
/// whatever the minute window holds; when the window itself has room, the
/// denial names the daily cap with the exact counts.
pub proof fn lemma_daily_cap(
    pre: RateLimiter,
    post: RateLimiter,
    now_ms: u64,
    r: Result<(), RateLimitError>,
)
    requires
        admit_transition(pre, post, now_ms, r),
        spec_day_of(now_ms) == pre.spec_last_reset_day(),
        pre.spec_daily_count() >= pre.spec_max_per_day(),
    ensures
        r is Err,
        !(window_filter(pre.spec_requests(), now_ms).len() >= pre.spec_max_per_minute()
            && window_filter(pre.spec_requests(), now_ms).len() > 0) ==> (r matches Err(
        RateLimitError::DailyLimit { used, max }) && used == pre.spec_daily_count() && max
            == pre.spec_max_per_day()),
{
}

/// The daily counter resets exactly at UTC day rollover: the first admission
/// asked for on a new UTC day starts from a cleared window and a zero
/// counter, so it succeeds whenever the daily cap allows any call at all.
pub proof fn lemma_daily_reset_at_rollover(
    pre: RateLimiter,
    post: RateLimiter,
    now_ms: u64,
    r: Result<(), RateLimitError>,
)
    requires
        admit_transition(pre, post, now_ms, r),
        spec_day_of(now_ms) != pre.spec_last_reset_day(),
        pre.spec_max_per_day() >= 1,
    ensures
        r is Ok,
        post.spec_daily_count() == 1,
        post.spec_last_reset_day() == spec_day_of(now_ms),
{
}

} // verus!

//! Rates derived from pairs of (timestamp, counter) samples taken across polls.
use vstd::prelude::*;

verus! {

/// One reading of a monotonically increasing counter.
#[derive(Clone, Copy, Debug, PartialEq, Eq)]
pub struct RateSample {
    pub timestamp: u64,
    pub counter: u64,
}

/// `d * scale / e`, held to 64 bits.
pub open spec fn scaled_rate(d: int, e: int, scale: int) -> u64 {
    let q = d * scale / e;
    if q > u64::MAX {
        u64::MAX
    } else {
        q as u64
    }
}

/// The rate between a retained sample and a new reading: none without a
/// retained sample, none when the counter went down (a reset or wraparound)
/// or no time has passed, else the counter's growth per unit of time times
/// `scale`.
pub open spec fn rate_between(last: Option<RateSample>, now: RateSample, scale: u64) -> Option<u64> {
    match last {
        None => None,
        Some(prev) => if now.counter < prev.counter || now.timestamp <= prev.timestamp {
            None
        } else {
            Some(
                scaled_rate(
                    now.counter - prev.counter,
                    now.timestamp - prev.timestamp,
                    scale as int,
                ),
            )
        },
    }
}

/// Holds the last sample of one tracked metric.
///
/// Every reading becomes the new baseline, an invalid one too: after a
/// counter reset the next poll yields a rate again.
#[derive(Clone, Copy, Debug)]
pub struct RateTracker {
    pub last: Option<RateSample>,
}

impl RateTracker {
    pub fn new() -> (r: RateTracker)
        ensures
            r.last is None,
    {
        RateTracker { last: None }
    }

    /// Records a reading and returns the rate since the previous one, scaled
    /// by `scale`.
    pub fn observe(&mut self, timestamp: u64, counter: u64, scale: u64) -> (r: Option<u64>)
        ensures
            r == rate_between(old(self).last, RateSample { timestamp, counter }, scale),
            final(self).last == Some(RateSample { timestamp, counter }),
    {
        let now = RateSample { timestamp, counter };
        let result = match self.last {
            None => None,
            Some(prev) => {
                if counter < prev.counter || timestamp <= prev.timestamp {
                    None
                } else {
                    let d: u64 = counter - prev.counter;
                    let e: u64 = timestamp - prev.timestamp;
                    proof {
                        assert((d as int) * (scale as int) <= (u64::MAX as int) * (u64::MAX as int))
                            by (nonlinear_arith)
                            requires
                                d <= u64::MAX,
                                scale <= u64::MAX,
                        ;
                    }
                    let p: u128 = (d as u128) * (scale as u128);
                    let q: u128 = p / (e as u128);
                    if q > u64::MAX as u128 {
                        Some(u64::MAX)
                    } else {
                        Some(q as u64)
                    }
                }
            },
        };
        self.last = Some(now);
        result
    }
}

/// Busy percentage from a busy-time counter in milliseconds read at
/// `now_ms`, held to 100.
pub open spec fn busy_percent_of(last: Option<RateSample>, now_ms: u64, busy_ms: u64) -> Option<u8> {
    match rate_between(last, RateSample { timestamp: now_ms, counter: busy_ms }, 100) {
        None => None,
        Some(p) => Some(if p > 100 {
            100u8
        } else {
            p as u8
        }),
    }
}

/// Feeds a reading of the busy-time counter (milliseconds) to `tracker` and
/// returns the share of the elapsed time that the GPU was busy, in percent.
pub fn busy_percent(tracker: &mut RateTracker, now_ms: u64, busy_ms: u64) -> (r: Option<u8>)
    ensures
        r == busy_percent_of(old(tracker).last, now_ms, busy_ms),
        final(tracker).last == Some(RateSample { timestamp: now_ms, counter: busy_ms }),
{
    match tracker.observe(now_ms, busy_ms, 100) {
        None => None,
        Some(p) => Some(
            if p > 100 {
                100u8
            } else {
                p as u8
            },
        ),
    }
}

/// The first non-zero reading of `s`, if any.
pub open spec fn first_nonzero(s: Seq<u64>) -> Option<u64>
    decreases s.len(),
{
    if s.len() == 0 {
        None
    } else if s[0] != 0 {
        Some(s[0])
    } else {
        first_nonzero(s.drop_first())
    }
}

pub fn find_first_nonzero(values: &Vec<u64>) -> (r: Option<u64>)
    ensures
        r == first_nonzero(values@),
{
    let mut i: usize = 0;
    assert(values@.skip(0) =~= values@);
    while i < values.len()
        invariant
            i <= values.len(),
            first_nonzero(values@) == first_nonzero(values@.skip(i as int)),
        decreases values.len() - i,
    {
        assert(values@.skip(i as int).drop_first() =~= values@.skip(i + 1));
        if values[i] != 0 {
            return Some(values[i]);
        }
        i += 1;
    }
    assert(values@.skip(i as int) =~= Seq::<u64>::empty());
    None
}

/// Power draw in microwatts: the direct sensor when there is one, else the
/// growth of the first non-zero energy counter (microjoules) per
/// millisecond, times 1000.
pub open spec fn power_usage_of(
    last: Option<RateSample>,
    direct_uw: Option<u64>,
    energy_uj: Seq<u64>,
    now_ms: u64,
) -> Option<u64> {
    match direct_uw {
        Some(p) => Some(p),
        None => match first_nonzero(energy_uj) {
            None => None,
            Some(e) => rate_between(last, RateSample { timestamp: now_ms, counter: e }, 1000),
        },
    }
}

/// Current power draw in microwatts. The energy tracker is fed only when no
/// direct sensor reads and a non-zero energy counter does.
pub fn power_usage(
    tracker: &mut RateTracker,
    direct_uw: Option<u64>,
    energy_uj: &Vec<u64>,
    now_ms: u64,
) -> (r: Option<u64>)
    ensures
        r == power_usage_of(old(tracker).last, direct_uw, energy_uj@, now_ms),
        final(tracker).last == (match (direct_uw, first_nonzero(energy_uj@)) {
            (None, Some(e)) => Some(RateSample { timestamp: now_ms, counter: e }),
            _ => old(tracker).last,
        }),
{
    match direct_uw {
        Some(p) => Some(p),
        None => match find_first_nonzero(energy_uj) {
            None => None,
            Some(e) => tracker.observe(now_ms, e, 1000),
        },
    }
}

/// A first reading never yields a rate; a second one, with the counter grown
/// by `d` over `e` units of time, yields `d * scale / e`; one with a lower
/// counter than the one before yields none.
pub proof fn lemma_rate_sequence(t0: u64, c0: u64, t1: u64, c1: u64, scale: u64)
    ensures
        rate_between(None, RateSample { timestamp: t0, counter: c0 }, scale) is None,
        t0 < t1 && c0 <= c1 ==> rate_between(
            Some(RateSample { timestamp: t0, counter: c0 }),
            RateSample { timestamp: t1, counter: c1 },
            scale,
        ) == Some(scaled_rate(c1 - c0, t1 - t0, scale as int)),
        c1 < c0 ==> rate_between(
            Some(RateSample { timestamp: t0, counter: c0 }),
            RateSample { timestamp: t1, counter: c1 },
            scale,
        ) is None,
{
}

/// The busy share between two readings is the growth of the busy time over
/// the time that passed, as a percentage held to 100.
pub proof fn lemma_busy_percent_between(t0: u64, b0: u64, t1: u64, b1: u64)
    requires
        t0 < t1,
        b0 <= b1,
    ensures
        busy_percent_of(Some(RateSample { timestamp: t0, counter: b0 }), t1, b1) == Some(
            if (b1 - b0) * 100 / (t1 - t0) > 100 {
                100u8
            } else {
                ((b1 - b0) * 100 / (t1 - t0)) as u8
            },
        ),
{
    let q = (b1 - b0) * 100 / (t1 - t0);
    assert(q >= 0) by (nonlinear_arith)
        requires
            b1 >= b0,
            t1 > t0,
            q == (b1 - b0) * 100 / (t1 - t0),
    ;
}

} // verus!

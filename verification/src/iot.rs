//! The IoT emulator: the payloads it sends, and how it spaces its sends.
use vstd::prelude::*;

use crate::ids::BidId;

verus! {

/// A message sent by an emulated IoT device.
#[derive(Debug)]
pub struct Payload {
    /// When it was sent, in microseconds since the Unix epoch.
    pub sent_at: i64,
    pub tag: String,
    pub period: u64,
}

impl Payload {
    pub fn new(sent_at: i64, tag: String, period: u64) -> (res: Self)
        ensures
            res.sent_at == sent_at,
            res.tag == tag,
            res.period == period,
    {
        Payload { sent_at, tag, period }
    }
}

/// How often the emulator sends, and whether it sends at all.
#[derive(Debug, Clone, Copy, PartialEq, Eq)]
pub struct Interval {
    pub interval_ms: u64,
    pub enabled: bool,
}

impl Default for Interval {
    /// Every ten seconds, disabled.
    fn default() -> (res: Self)
        ensures
            res.interval_ms == 10000,
            !res.enabled,
    {
        Interval { interval_ms: 10000, enabled: false }
    }
}

/// The query that sets the interval.
#[derive(Debug, Clone, Copy, PartialEq, Eq)]
pub struct IntervalQuery {
    pub interval_ms: u64,
    pub enabled: bool,
}

impl From<IntervalQuery> for Interval {
    fn from(value: IntervalQuery) -> (res: Self) {
        Interval { interval_ms: value.interval_ms, enabled: value.enabled }
    }
}

impl vstd::std_specs::convert::FromSpecImpl<IntervalQuery> for Interval {
    open spec fn obeys_from_spec() -> bool {
        true
    }

    open spec fn from_spec(v: IntervalQuery) -> Interval {
        Interval { interval_ms: v.interval_ms, enabled: v.enabled }
    }
}

/// A recurring send that the emulator was asked to run.
#[derive(Debug)]
pub struct StartCron {
    pub function_id: BidId,
    pub iot_url: String,
    pub node_url: String,
    pub tag: String,
}

/// The time between two sends, in microseconds, when `jobs` sends share an
/// interval of `interval_ms` milliseconds: the interval divided evenly among
/// them, rounded down, and the longest that a `u64` counts when it is longer.
pub open spec fn spacing_micros(interval_ms: u64, jobs: nat) -> int {
    let even = (interval_ms * 1000) / (jobs as int);
    if even <= u64::MAX {
        even
    } else {
        u64::MAX as int
    }
}

/// No more sends than `jobs` spaced by at most an even share of an interval
/// fit in that interval.
pub proof fn lemma_sends_fit_in_interval(total_micros: int, jobs: int, spacing: int)
    requires
        0 <= total_micros,
        0 < jobs,
        0 <= spacing <= total_micros / jobs,
    ensures
        spacing * jobs <= total_micros,
{
    assert(spacing * jobs <= total_micros) by (nonlinear_arith)
        requires
            0 <= total_micros,
            0 < jobs,
            0 <= spacing <= total_micros / jobs,
    {
        assert((total_micros / jobs) * jobs <= total_micros);
        assert(spacing * jobs <= (total_micros / jobs) * jobs);
    }
}

impl Interval {
    /// The time between two sends, in microseconds, when `jobs` sends share
    /// one interval ([`spacing_micros`]). Nothing is sent while the emulator
    /// is disabled or has no send to run.
    pub fn send_spacing_micros(&self, jobs: usize) -> (res: Option<u64>)
        ensures
            !self.enabled || jobs == 0 ==> res is None,
            self.enabled && jobs > 0 ==> res == Some(
                spacing_micros(self.interval_ms, jobs as nat) as u64,
            ),
            res matches Some(spacing) ==> spacing * jobs <= self.interval_ms * 1000,
    {
        if !self.enabled || jobs == 0 {
            return None;
        }
        let total: u128 = (self.interval_ms as u128) * 1000;
        let even: u128 = total / (jobs as u128);
        let spacing: u64 = if even <= (u64::MAX as u128) {
            even as u64
        } else {
            u64::MAX
        };
        proof {
            lemma_sends_fit_in_interval(total as int, jobs as int, spacing as int);
        }
        Some(spacing)
    }
}

} // verus!

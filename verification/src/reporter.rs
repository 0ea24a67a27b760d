//! The periodic reporter's per-tick decisions, and the cancellation signal
//! it watches.
//!
//! The shell owns the timer: it waits out one tick interval on a condition
//! variable so that a cancellation wakes it at once, takes a snapshot of the
//! shared accumulator, and hands the snapshot here. `reporter_tick` decides
//! what the tick emits: nothing when cancelled, a "no data" line when the
//! snapshot is empty, otherwise one aggregate line with count, rate, maximum,
//! and average.

use crate::stat::stat_zero;
use crate::stat::StatModel;
use vstd::arithmetic::div_mod::lemma_fundamental_div_mod;
use vstd::arithmetic::mul::lemma_mul_inequality;
use vstd::prelude::*;

verus! {

/// The cancellation flag: set exactly once at shutdown, and never unset, so
/// once it reads true it stays true until process exit. The shell pairs it
/// with a condition variable so a waiting reporter wakes the instant it is
/// set.
pub struct CancelSignal {
    stopped: bool,
}

impl CancelSignal {
    /// Whether the signal has been set.
    pub closed spec fn spec_is_set(&self) -> bool {
        self.stopped
    }

    /// A fresh signal, not yet set.
    pub fn new() -> (s: CancelSignal)
        ensures
            !s.spec_is_set(),
    {
        CancelSignal { stopped: false }
    }

    /// Set the signal. This is the only mutation the signal has, so it can
    /// never go back to unset.
    pub fn stop(&mut self)
        ensures
            final(self).spec_is_set(),
    {
        self.stopped = true;
    }

    /// Read the signal.
    pub fn is_set(&self) -> (r: bool)
        ensures
            r == self.spec_is_set(),
    {
        self.stopped
    }
}

/// What one firing of the reporter's timer emits.
#[derive(Clone, Copy, Debug, PartialEq, Eq, Structural)]
pub enum TickOutcome {
    /// The cancellation signal was set: exit the loop without a report.
    Cancelled,
    /// Nothing was recorded since the last tick: a "no data" line.
    NoData,
    /// One aggregate report line.
    Report {
        /// How many echoes the tick covers.
        echos: u64,
        /// Echoes per second, scaled by 1000 (an integer count of
        /// thousandths per second).
        rate_milli: u64,
        /// The largest elapsed time of the tick, in nanoseconds.
        max_time_ns: u64,
        /// The average elapsed time of the tick, in nanoseconds.
        avg_time_ns: u64,
    },
}

/// The rate in echoes per second, scaled by 1000 and saturated to `u64`:
/// the count of echoes over the tick interval.
pub open spec fn spec_rate_milli(echos: nat, interval_ns: nat) -> nat
    recommends
        interval_ns > 0,
{
    let r = echos * 1_000_000_000_000 / interval_ns;
    if r > u64::MAX {
        u64::MAX as nat
    } else {
        r
    }
}

/// What a tick emits, from the cancellation flag and the snapshot the shell
/// read: cancellation wins and emits nothing, an empty snapshot reports no
/// data, and otherwise the report carries the count, the scaled rate, the
/// maximum, and the average `total / count`.
pub open spec fn spec_tick(cancelled: bool, m: StatModel, interval_ns: u64) -> TickOutcome
    recommends
        interval_ns > 0,
        m.echos <= u64::MAX,
        m.tot_time_ns <= u64::MAX,
        m.max_time_ns <= u64::MAX,
{
    if cancelled {
        TickOutcome::Cancelled
    } else if m.echos == 0 {
        TickOutcome::NoData
    } else {
        TickOutcome::Report {
            echos: m.echos as u64,
            rate_milli: spec_rate_milli(m.echos, interval_ns as nat) as u64,
            max_time_ns: m.max_time_ns as u64,
            avg_time_ns: (m.tot_time_ns / m.echos) as u64,
        }
    }
}

/// Decide one tick from the cancellation flag, the snapshot triple the shell
/// read from the accumulator, and the tick interval.
pub fn reporter_tick(
    cancelled: bool,
    echos: u64,
    tot_time_ns: u64,
    max_time_ns: u64,
    interval_ns: u64,
) -> (r: TickOutcome)
    requires
        interval_ns > 0,
    ensures
        r == spec_tick(
            cancelled,
            StatModel {
                echos: echos as nat,
                tot_time_ns: tot_time_ns as nat,
                max_time_ns: max_time_ns as nat,
            },
            interval_ns,
        ),
{
    if cancelled {
        TickOutcome::Cancelled
    } else if echos == 0 {
        TickOutcome::NoData
    } else {
        let prod: u128 = (echos as u128) * 1_000_000_000_000u128;
        let q: u128 = prod / (interval_ns as u128);
        let rate_milli: u64 = if q > (u64::MAX as u128) {
            u64::MAX
        } else {
            q as u64
        };
        let avg_time_ns: u64 = tot_time_ns / echos;
        TickOutcome::Report { echos, rate_milli, max_time_ns, avg_time_ns }
    }
}

/// When the cancellation signal is set at the tick, the reporter exits its
/// loop without emitting a report, whatever the snapshot holds.
pub proof fn lemma_cancelled_tick_reports_nothing(m: StatModel, interval_ns: u64)
    ensures
        spec_tick(true, m, interval_ns) == TickOutcome::Cancelled,
{
}

/// A snapshot resets the accumulator, so a tick that follows it with no
/// intervening round-trip always emits the "no data" line.
pub proof fn lemma_tick_after_snapshot_is_no_data(interval_ns: u64)
    ensures
        spec_tick(false, stat_zero(), interval_ns) == TickOutcome::NoData,
{
}

/// How long to wait from `now_ns` until the next multiple of `interval_ns`.
pub open spec fn spec_until_even(now_ns: int, interval_ns: int) -> int
    recommends
        interval_ns > 0,
{
    (now_ns / interval_ns + 1) * interval_ns - now_ns
}

/// The time from `now_ns` until the next even multiple of the interval: the
/// wait that lands the following wake-up on an interval boundary. It is
/// always positive and never longer than one whole interval.
pub fn compute_until_even_interval_nanos(now_ns: u64, interval_ns: u64) -> (r: u64)
    requires
        interval_ns > 0,
        spec_until_even(now_ns as int, interval_ns as int) + now_ns <= u64::MAX,
    ensures
        r == spec_until_even(now_ns as int, interval_ns as int),
        0 < r <= interval_ns,
{
    proof {
        let n = now_ns as int;
        let i = interval_ns as int;
        lemma_fundamental_div_mod(n, i);
        lemma_mul_inequality(1, n / i + 1, i);
        assert((n / i + 1) * i == (n / i) * i + i) by (nonlinear_arith);
        assert(i * (n / i) == (n / i) * i) by (nonlinear_arith);
    }
    let d: u64 = now_ns / interval_ns;
    let next: u64 = (d + 1) * interval_ns;
    next - now_ns
}

} // verus!

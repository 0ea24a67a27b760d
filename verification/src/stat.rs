//! The latency statistics accumulator.
//!
//! It holds the observations made since the last snapshot: how many echoes
//! came back, the sum of their elapsed times, and the largest single one.
//! Its only mutation entry points are `update` and `snap_shot`; a snapshot
//! reads and resets all three fields as one unit, so a reader can never see
//! a count that does not match the sum and maximum it pairs with. The shell
//! that shares one accumulator between the round-trip loop and the reporter
//! guards it with a single lock around these calls.

use vstd::prelude::*;

verus! {

/// The mathematical model of the accumulator: what it has recorded since the
/// last snapshot.
pub struct StatModel {
    /// How many echoes were recorded.
    pub echos: nat,
    /// The sum of the recorded elapsed times, in nanoseconds.
    pub tot_time_ns: nat,
    /// The largest recorded elapsed time, in nanoseconds.
    pub max_time_ns: nat,
}

/// The model of a fresh or just-reset accumulator.
pub open spec fn stat_zero() -> StatModel {
    StatModel { echos: 0, tot_time_ns: 0, max_time_ns: 0 }
}

/// What recording one elapsed time does to the model: the count grows by
/// one, the time joins the sum, and the maximum rises if it is exceeded.
pub open spec fn stat_step(m: StatModel, time_ns: u64) -> StatModel {
    StatModel {
        echos: m.echos + 1,
        tot_time_ns: (m.tot_time_ns + time_ns) as nat,
        max_time_ns: if time_ns > m.max_time_ns {
            time_ns as nat
        } else {
            m.max_time_ns
        },
    }
}

/// The model after recording a whole sequence of elapsed times on a fresh
/// accumulator, in order.
pub open spec fn stat_accum(ts: Seq<u64>) -> StatModel
    decreases ts.len(),
{
    if ts.len() == 0 {
        stat_zero()
    } else {
        stat_step(stat_accum(ts.drop_last()), ts.last())
    }
}

/// The sum of a sequence of elapsed times.
pub open spec fn sum_times(ts: Seq<u64>) -> nat
    decreases ts.len(),
{
    if ts.len() == 0 {
        0
    } else {
        (sum_times(ts.drop_last()) + ts.last()) as nat
    }
}

/// The largest of a sequence of elapsed times, zero for the empty sequence.
pub open spec fn max_times(ts: Seq<u64>) -> nat
    decreases ts.len(),
{
    if ts.len() == 0 {
        0
    } else if ts.last() > max_times(ts.drop_last()) {
        ts.last() as nat
    } else {
        max_times(ts.drop_last())
    }
}

/// The accumulator's invariant: the largest recorded time never exceeds the
/// sum of all recorded times.
pub open spec fn stat_wf(m: StatModel) -> bool {
    m.max_time_ns <= m.tot_time_ns
}

/// Aggregate latency statistics since the last snapshot.
pub struct Stat {
    echos: u64,
    tot_time_ns: u64,
    max_time_ns: u64,
}

impl View for Stat {
    type V = StatModel;

    closed spec fn view(&self) -> StatModel {
        StatModel {
            echos: self.echos as nat,
            tot_time_ns: self.tot_time_ns as nat,
            max_time_ns: self.max_time_ns as nat,
        }
    }
}

impl Stat {
    /// A fresh accumulator with nothing recorded.
    pub fn new() -> (s: Stat)
        ensures
            s@ == stat_zero(),
    {
        Stat { echos: 0, tot_time_ns: 0, max_time_ns: 0 }
    }

    /// Reset all three fields together.
    fn zero(&mut self)
        ensures
            final(self)@ == stat_zero(),
    {
        self.max_time_ns = 0;
        self.tot_time_ns = 0;
        self.echos = 0;
    }

    /// Record one round-trip's elapsed time: count it, add it to the total,
    /// and raise the maximum if it is exceeded.
    pub fn update(&mut self, time_ns: u64)
        requires
            old(self)@.echos + 1 <= u64::MAX,
            old(self)@.tot_time_ns + time_ns <= u64::MAX,
        ensures
            final(self)@ == stat_step(old(self)@, time_ns),
    {
        self.echos = self.echos + 1;
        self.tot_time_ns = self.tot_time_ns + time_ns;
        if time_ns > self.max_time_ns {
            self.max_time_ns = time_ns;
        }
    }

    /// The echo count recorded since the last snapshot.
    pub fn echos(&self) -> (r: u64)
        ensures
            r == self@.echos,
    {
        self.echos
    }

    /// The summed elapsed time recorded since the last snapshot.
    pub fn tot_time_ns(&self) -> (r: u64)
        ensures
            r == self@.tot_time_ns,
    {
        self.tot_time_ns
    }

    /// The largest elapsed time recorded since the last snapshot.
    pub fn max_time_ns(&self) -> (r: u64)
        ensures
            r == self@.max_time_ns,
    {
        self.max_time_ns
    }

    /// Read the echo count, total time, and maximum time as one unit, and
    /// reset all three to zero in the same step. A second snapshot with no
    /// intervening update therefore always reports a zero count.
    pub fn snap_shot(&mut self) -> (r: (u64, u64, u64))
        ensures
            r.0 == old(self)@.echos,
            r.1 == old(self)@.tot_time_ns,
            r.2 == old(self)@.max_time_ns,
            final(self)@ == stat_zero(),
    {
        let r = (self.echos, self.tot_time_ns, self.max_time_ns);
        self.zero();
        r
    }
}

/// After any sequence of recorded round-trips on a fresh accumulator, the
/// model a snapshot reads holds exactly their count, their sum, and their
/// maximum, and the accumulator's invariant holds of it.
pub proof fn lemma_stat_accumulates(ts: Seq<u64>)
    ensures
        stat_accum(ts).echos == ts.len(),
        stat_accum(ts).tot_time_ns == sum_times(ts),
        stat_accum(ts).max_time_ns == max_times(ts),
        stat_wf(stat_accum(ts)),
    decreases ts.len(),
{
    if ts.len() > 0 {
        lemma_stat_accumulates(ts.drop_last());
    }
}

} // verus!

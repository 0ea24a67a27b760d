//! One client round-trip's bookkeeping: record the elapsed time in the
//! shared statistics and classify it against the configured severity
//! thresholds.

use crate::stat::stat_step;
use crate::stat::Stat;
use vstd::prelude::*;

verus! {

/// The notice a single round-trip elapsed time earns, if any.
#[derive(Clone, Copy, Debug, PartialEq, Eq, Structural)]
pub enum Breach {
    /// The elapsed time exceeded the info threshold (but not the warn one).
    Info,
    /// The elapsed time exceeded the warn threshold.
    Warn,
}

/// What a round's elapsed time earns: a warn notice when it is strictly above
/// the warn threshold, otherwise an info notice when strictly above the info
/// threshold, otherwise nothing. Equality with a threshold earns no notice.
pub open spec fn spec_classify(elapsed_ns: u64, info_ns: u64, warn_ns: u64) -> Option<Breach> {
    if elapsed_ns > warn_ns {
        Some(Breach::Warn)
    } else if elapsed_ns > info_ns {
        Some(Breach::Info)
    } else {
        None
    }
}

/// Classify one elapsed time against the info and warn thresholds.
/// The comparison is strict: an elapsed time exactly equal to a threshold
/// does not trigger that threshold's notice.
pub fn classify(elapsed_ns: u64, info_ns: u64, warn_ns: u64) -> (r: Option<Breach>)
    ensures
        r == spec_classify(elapsed_ns, info_ns, warn_ns),
{
    if elapsed_ns > warn_ns {
        Some(Breach::Warn)
    } else if elapsed_ns > info_ns {
        Some(Breach::Info)
    } else {
        None
    }
}

/// The measuring half of one client round, once the echo is back and the
/// elapsed time is known from the locally retained send timestamp: record
/// it in the accumulator, and say which threshold notice, if any, it earns.
pub fn client_round(stat: &mut Stat, elapsed_ns: u64, info_ns: u64, warn_ns: u64) -> (r: Option<
    Breach,
>)
    requires
        old(stat)@.echos + 1 <= u64::MAX,
        old(stat)@.tot_time_ns + elapsed_ns <= u64::MAX,
    ensures
        final(stat)@ == stat_step(old(stat)@, elapsed_ns),
        r == spec_classify(elapsed_ns, info_ns, warn_ns),
{
    stat.update(elapsed_ns);
    classify(elapsed_ns, info_ns, warn_ns)
}

} // verus!

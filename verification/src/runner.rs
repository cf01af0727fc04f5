//! The statistics report: the time that a run spent reading, derived from
//! the total time and the times measured in the operators and writers.

use vstd::prelude::*;
use crate::plan::{ProcessingStatistics, StepStatistics};

verus! {

/// The time that the first `n` steps spent in their operators.
pub open spec fn processing_time(steps: Seq<StepStatistics>, n: int) -> int
    decreases n,
{
    if n <= 0 {
        0
    } else {
        processing_time(steps, n - 1) + steps[n - 1].processing_time_ms
    }
}

/// The time spent reading: what is left of the total time after the time
/// in the operators and the time writing, and nothing where they exceed it.
pub open spec fn read_time(total_ms: int, stats: ProcessingStatistics) -> int {
    let rest = total_ms - processing_time(stats.step_statistics@, stats.step_statistics@.len() as int)
        - stats.write_time_ms;
    if rest > 0 {
        rest
    } else {
        0
    }
}

proof fn lemma_processing_time_nonnegative(steps: Seq<StepStatistics>, n: int)
    ensures
        processing_time(steps, n) >= 0,
    decreases n,
{
    if n > 0 {
        lemma_processing_time_nonnegative(steps, n - 1);
    }
}

/// The estimate of the time spent reading, in milliseconds.
pub fn estimate_read_time(total_ms: u64, stats: &ProcessingStatistics) -> (r: u64)
    ensures
        r == read_time(total_ms as int, *stats),
{
    let mut rest: u64 = total_ms;
    let mut i: usize = 0;
    while i < stats.step_statistics.len()
        invariant
            i <= stats.step_statistics@.len(),
            rest == (if total_ms - processing_time(stats.step_statistics@, i as int) > 0 {
                total_ms - processing_time(stats.step_statistics@, i as int)
            } else {
                0
            }),
        decreases stats.step_statistics@.len() - i,
    {
        proof {
            lemma_processing_time_nonnegative(stats.step_statistics@, i as int);
        }
        rest = rest.saturating_sub(stats.step_statistics[i].processing_time_ms);
        i += 1;
    }
    proof {
        lemma_processing_time_nonnegative(stats.step_statistics@, stats.step_statistics@.len() as int);
    }
    rest.saturating_sub(stats.write_time_ms)
}

/// The statistics with the estimate of the time spent reading filled in.
pub fn with_read_time(stats: ProcessingStatistics, total_ms: u64) -> (r: ProcessingStatistics)
    ensures
        r.read_time_ms == read_time(total_ms as int, stats),
        r.num_documents == stats.num_documents,
        r.step_statistics == stats.step_statistics,
        r.write_time_ms == stats.write_time_ms,
{
    let read_time_ms = estimate_read_time(total_ms, &stats);
    ProcessingStatistics {
        num_documents: stats.num_documents,
        step_statistics: stats.step_statistics,
        read_time_ms,
        write_time_ms: stats.write_time_ms,
    }
}

} // verus!

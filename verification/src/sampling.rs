//! Latency sampling round: turning probe outcomes into samples and a summary.
//!
//! One probe round performs a fixed number of sequential round-trip calls.
//! The caller measures each call and reports its outcome here; a failed call
//! contributes a fixed penalty latency instead of its measured time, so that
//! failing rounds degrade toward `Down` instead of aborting the round. The
//! summary carries the 50th and 95th percentile, the sample count, and the
//! health status classified from the 95th percentile.

use vstd::prelude::*;
use crate::health::{classify, classify_spec, HealthStatus};
use crate::percentile::{
    percentile, percentile_spec, percentile_value, lemma_percentile_in_samples,
    lemma_percentile_monotone, RANK_SCALE,
};

verus! {

/// Latency recorded for a failed probe call: 3000 ms, in nanoseconds.
pub const PENALTY_NS: u64 = 3_000_000_000;

/// Rank of the 50th percentile on the `RANK_SCALE` scale.
pub const P50_RANK: u32 = 5_000;

/// Rank of the 95th percentile on the `RANK_SCALE` scale.
pub const P95_RANK: u32 = 9_500;

/// What one probe call came back with: whether the round trip succeeded and
/// how long it took, in nanoseconds.
#[derive(Clone, Copy, Debug, PartialEq, Eq, Structural)]
pub struct ProbeOutcome {
    pub succeeded: bool,
    pub elapsed_ns: u64,
}

/// The sample an outcome contributes: its measured time when the call
/// succeeded, the fixed penalty when it failed.
pub open spec fn sample_of(o: ProbeOutcome) -> u64 {
    if o.succeeded {
        o.elapsed_ns
    } else {
        PENALTY_NS
    }
}

/// One latency sample per probe outcome, in the order the calls were made.
pub fn collect_samples(outcomes: &Vec<ProbeOutcome>) -> (samples: Vec<u64>)
    ensures
        samples@.len() == outcomes@.len(),
        forall|i: int| 0 <= i < samples@.len() ==> samples@[i] == sample_of(#[trigger] outcomes@[i]),
{
    let mut samples: Vec<u64> = Vec::new();
    let mut i: usize = 0;
    while i < outcomes.len()
        invariant
            i <= outcomes@.len(),
            samples@.len() == i,
            forall|k: int| 0 <= k < i ==> samples@[k] == sample_of(#[trigger] outcomes@[k]),
        decreases outcomes@.len() - i,
    {
        let o = outcomes[i];
        if o.succeeded {
            samples.push(o.elapsed_ns);
        } else {
            samples.push(PENALTY_NS);
        }
        i += 1;
    }
    samples
}

/// Result of one sampling round: both percentiles (in nanoseconds, `None`
/// when the round was empty), the number of samples, and the health status
/// classified from the 95th percentile.
pub struct LatencySummary {
    pub p50_ns: Option<u64>,
    pub p95_ns: Option<u64>,
    pub sample_count: usize,
    pub status: HealthStatus,
}

/// Aggregates one round of samples: p50 and p95 by the nearest-rank rule, the
/// sample count, and the status that the 95th percentile classifies to.
pub fn summarize(samples: &Vec<u64>) -> (summary: LatencySummary)
    ensures
        summary.p50_ns == percentile_spec(samples@, P50_RANK as int),
        summary.p95_ns == percentile_spec(samples@, P95_RANK as int),
        summary.sample_count == samples@.len(),
        summary.status == classify_spec(summary.p95_ns),
{
    let p50_ns = percentile(samples, P50_RANK);
    let p95_ns = percentile(samples, P95_RANK);
    let status = classify(p95_ns);
    LatencySummary { p50_ns, p95_ns, sample_count: samples.len(), status }
}

/// A round in which every probe call failed classifies as `Down`: all samples
/// are the penalty value, so any percentile of them is the penalty value,
/// which lies above the `Warn` band.
pub proof fn lemma_all_failed_round_is_down(samples: Seq<u64>, rank: int)
    requires
        samples.len() > 0,
        0 <= rank <= RANK_SCALE,
        forall|i: int| 0 <= i < samples.len() ==> #[trigger] samples[i] == PENALTY_NS,
    ensures
        percentile_spec(samples, rank) == Some(PENALTY_NS),
        classify_spec(percentile_spec(samples, rank)) == HealthStatus::Down,
{
    lemma_percentile_in_samples(samples, rank);
}

/// In every non-empty round the reported p50 is at most the reported p95.
pub proof fn lemma_p50_le_p95(samples: Seq<u64>)
    requires
        samples.len() > 0,
    ensures
        percentile_value(samples, P50_RANK as int) <= percentile_value(samples, P95_RANK as int),
{
    lemma_percentile_monotone(samples, P50_RANK as int, P95_RANK as int);
}

/// An empty round has no percentile at all, and classifies as `Down`.
pub proof fn lemma_empty_round_is_down(samples: Seq<u64>, rank: int)
    requires
        samples.len() == 0,
    ensures
        percentile_spec(samples, rank) is None,
        classify_spec(percentile_spec(samples, rank)) == HealthStatus::Down,
{
}

} // verus!

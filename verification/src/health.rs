//! Three-level health status and the threshold rule that assigns one to a
//! measured 95th-percentile round-trip time.

use vstd::prelude::*;

verus! {

/// Upper bound, in nanoseconds, of the `Okay` band (300 ms).
pub const OK_MAX_NS: u64 = 300_000_000;

/// Upper bound, in nanoseconds, of the `Warn` band (800 ms).
pub const WARN_MAX_NS: u64 = 800_000_000;

/// Node health, in increasing order of severity.
#[derive(Clone, Copy, Debug, PartialEq, Eq, Structural)]
pub enum HealthStatus {
    Okay,
    Warn,
    Down,
}

/// The classification rule: an undefined percentile (no samples at all) is
/// `Down`; otherwise the bands are closed on their upper edge:
/// `[0, 300 ms] -> Okay`, `(300 ms, 800 ms] -> Warn`, above that `Down`.
pub open spec fn classify_spec(p95_ns: Option<u64>) -> HealthStatus {
    match p95_ns {
        None => HealthStatus::Down,
        Some(v) => if v <= OK_MAX_NS {
            HealthStatus::Okay
        } else if v <= WARN_MAX_NS {
            HealthStatus::Warn
        } else {
            HealthStatus::Down
        },
    }
}

/// Maps a 95th-percentile round-trip time (in nanoseconds, `None` when no
/// samples exist) to a health status, exactly as `classify_spec` states.
pub fn classify(p95_ns: Option<u64>) -> (status: HealthStatus)
    ensures
        status == classify_spec(p95_ns),
{
    match p95_ns {
        None => HealthStatus::Down,
        Some(v) => if v <= OK_MAX_NS {
            HealthStatus::Okay
        } else if v <= WARN_MAX_NS {
            HealthStatus::Warn
        } else {
            HealthStatus::Down
        },
    }
}

/// Severity of a status: the three levels in increasing order of badness.
pub open spec fn severity(status: HealthStatus) -> int {
    match status {
        HealthStatus::Okay => 0,
        HealthStatus::Warn => 1,
        HealthStatus::Down => 2,
    }
}

/// The bands respect the severity order: a larger 95th percentile never
/// classifies as less severe, and a missing one is the most severe outcome.
pub proof fn lemma_classify_monotone(a: Option<u64>, b: Option<u64>)
    requires
        a is Some && b is Some ==> a->0 <= b->0,
        a is Some || b is None,
    ensures
        severity(classify_spec(a)) <= severity(classify_spec(b)),
{
}

/// The label under which a status is reported.
pub fn status_label(status: HealthStatus) -> (r: &'static str)
    ensures
        status is Okay ==> r@ == "ok"@,
        status is Warn ==> r@ == "warn"@,
        status is Down ==> r@ == "down"@,
{
    match status {
        HealthStatus::Okay => "ok",
        HealthStatus::Warn => "warn",
        HealthStatus::Down => "down",
    }
}

} // verus!

use node_health::health::HealthStatus;
use node_health::sampling::{collect_samples, summarize, ProbeOutcome, PENALTY_NS};

#[test]
fn all_failed_round_is_all_penalty_and_down() {
    let outcomes: Vec<ProbeOutcome> = (0..7)
        .map(|_| ProbeOutcome { succeeded: false, elapsed_ns: 12_345 })
        .collect();
    let samples = collect_samples(&outcomes);
    assert_eq!(samples.len(), 7);
    assert!(samples.iter().all(|&s| s == PENALTY_NS));
    assert_eq!(PENALTY_NS, 3_000_000_000);
    let summary = summarize(&samples);
    assert_eq!(summary.p95_ns, Some(PENALTY_NS));
    assert_eq!(summary.status, HealthStatus::Down);
}

#[test]
fn empty_round_is_down() {
    let outcomes: Vec<ProbeOutcome> = Vec::new();
    let samples = collect_samples(&outcomes);
    assert_eq!(samples.len(), 0);
    let summary = summarize(&samples);
    assert_eq!(summary.p50_ns, None);
    assert_eq!(summary.p95_ns, None);
    assert_eq!(summary.sample_count, 0);
    assert_eq!(summary.status, HealthStatus::Down);
}

#[test]
fn successful_round_summary() {
    // elapsed times 100, 120, 110, 105, 130, 115, 125 ms, all successful
    let ms: [u64; 7] = [100, 120, 110, 105, 130, 115, 125];
    let outcomes: Vec<ProbeOutcome> = ms
        .iter()
        .map(|&m| ProbeOutcome { succeeded: true, elapsed_ns: m * 1_000_000 })
        .collect();
    let samples = collect_samples(&outcomes);
    let summary = summarize(&samples);
    assert_eq!(summary.sample_count, 7);
    assert_eq!(summary.p50_ns, Some(115_000_000));
    assert_eq!(summary.p95_ns, Some(130_000_000));
    assert!(samples.contains(&summary.p50_ns.unwrap()));
    assert!(samples.contains(&summary.p95_ns.unwrap()));
    assert_eq!(summary.status, HealthStatus::Okay);
}

#[test]
fn mixed_round_substitutes_penalty() {
    let outcomes = vec![
        ProbeOutcome { succeeded: true, elapsed_ns: 42 },
        ProbeOutcome { succeeded: false, elapsed_ns: 42 },
        ProbeOutcome { succeeded: true, elapsed_ns: 7 },
    ];
    let samples = collect_samples(&outcomes);
    assert_eq!(samples, vec![42, PENALTY_NS, 7]);
}

#[test]
fn slow_round_is_warn() {
    // every call succeeded but took 500 ms
    let outcomes: Vec<ProbeOutcome> = (0..7)
        .map(|_| ProbeOutcome { succeeded: true, elapsed_ns: 500_000_000 })
        .collect();
    let summary = summarize(&collect_samples(&outcomes));
    assert_eq!(summary.status, HealthStatus::Warn);
}

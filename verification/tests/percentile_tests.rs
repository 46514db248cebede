use node_health::percentile::{percentile, RANK_SCALE};

#[test]
fn percentile_empty_is_undefined() {
    let empty: Vec<u64> = Vec::new();
    assert_eq!(percentile(&empty, 0), None);
    assert_eq!(percentile(&empty, 5_000), None);
    assert_eq!(percentile(&empty, 9_500), None);
    assert_eq!(percentile(&empty, RANK_SCALE), None);
}

#[test]
fn percentile_rank_zero_is_min() {
    let v: Vec<u64> = vec![5, 1, 9, 3];
    assert_eq!(percentile(&v, 0), Some(1));
}

#[test]
fn percentile_full_rank_is_max() {
    let v: Vec<u64> = vec![5, 1, 9, 3];
    assert_eq!(percentile(&v, RANK_SCALE), Some(9));
}

#[test]
fn percentile_is_order_independent() {
    let a: Vec<u64> = vec![100, 120, 110, 105, 130, 115, 125];
    let b: Vec<u64> = vec![130, 100, 125, 105, 120, 110, 115];
    for rank in [0u32, 1_000, 2_500, 5_000, 7_500, 9_500, 10_000] {
        assert_eq!(percentile(&a, rank), percentile(&b, rank));
    }
}

#[test]
fn percentile_nearest_rank_indices() {
    // sorted: [10, 20, 30, 40, 50, 60, 70]; p * (len - 1) = p * 6
    let v: Vec<u64> = vec![70, 10, 60, 20, 50, 30, 40];
    // 0.5 * 6 = 3.0 -> index 3
    assert_eq!(percentile(&v, 5_000), Some(40));
    // 0.95 * 6 = 5.7 -> index 6
    assert_eq!(percentile(&v, 9_500), Some(70));
    // 0.25 * 6 = 1.5 -> ties away from zero -> index 2
    assert_eq!(percentile(&v, 2_500), Some(30));
}

#[test]
fn percentile_tie_rounds_away_from_zero() {
    // len 6: 0.5 * 5 = 2.5 -> index 3, not 2
    let v: Vec<u64> = vec![1, 2, 3, 4, 5, 6];
    assert_eq!(percentile(&v, 5_000), Some(4));
}

#[test]
fn percentile_single_sample() {
    let v: Vec<u64> = vec![42];
    assert_eq!(percentile(&v, 0), Some(42));
    assert_eq!(percentile(&v, 5_000), Some(42));
    assert_eq!(percentile(&v, 10_000), Some(42));
}

#[test]
fn percentile_with_tied_samples() {
    let v: Vec<u64> = vec![5, 5, 5];
    for rank in [0u32, 2_500, 5_000, 9_500, 10_000] {
        assert_eq!(percentile(&v, rank), Some(5));
    }
}

#[test]
fn percentile_p50_at_most_p95() {
    let v: Vec<u64> = vec![900, 3, 77, 77, 12, 500];
    let p50 = percentile(&v, 5_000).unwrap();
    let p95 = percentile(&v, 9_500).unwrap();
    assert!(p50 <= p95);
    assert_eq!(p50, 77);
    assert_eq!(p95, 900);
}

#[test]
fn percentile_leaves_input_unchanged() {
    let v: Vec<u64> = vec![9, 1, 5];
    let _ = percentile(&v, 5_000);
    assert_eq!(v, vec![9, 1, 5]);
}

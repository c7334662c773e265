use tracerate::bufferbloat::grade;
use tracerate::bufferbloat::grade_from_label;
use tracerate::bufferbloat::percentile;
use tracerate::bufferbloat::saturation_streams;
use tracerate::bufferbloat::summarize_bufferbloat;
use tracerate::bufferbloat::BufferbloatResult;
use tracerate::bufferbloat::Grade;

// --- percentile ---

#[test]
fn percentile_empty_returns_zero() {
    assert_eq!(percentile(&[], 90), 0);
}

#[test]
fn percentile_single_sample() {
    assert_eq!(percentile(&[42], 90), 42);
}

#[test]
fn percentile_p0_returns_min() {
    assert_eq!(percentile(&[3, 1, 2], 0), 1);
}

#[test]
fn percentile_p100_returns_max() {
    assert_eq!(percentile(&[3, 1, 2], 100), 3);
}

#[test]
fn percentile_p50_of_four_is_second() {
    // nearest-rank: ceil(0.5 * 4) = 2 -> index 1 of sorted [1,2,3,4]
    assert_eq!(percentile(&[4, 2, 1, 3], 50), 2);
}

#[test]
fn percentile_p90_of_ten_is_ninth() {
    let samples: Vec<u64> = (1..=10).collect();
    // ceil(0.9 * 10) = 9 -> index 8 -> 9
    assert_eq!(percentile(&samples, 90), 9);
}

#[test]
fn percentile_unsorted_input_not_mutated() {
    let samples = [5, 1, 3];
    percentile(&samples, 50);
    assert_eq!(samples, [5, 1, 3]);
}

#[test]
fn percentile_above_hundred_is_max() {
    assert_eq!(percentile(&[7, 9, 8], 250), 9);
}

#[test]
fn percentile_p90_of_thirty_is_twenty_seventh() {
    let samples: Vec<u64> = (1..=30).rev().collect();
    assert_eq!(percentile(&samples, 90), 27);
}

#[test]
fn percentile_between_min_and_max() {
    let samples = [40, 10, 30, 20, 50];
    for pct in 0..=100u64 {
        let p = percentile(&samples, pct);
        assert!(samples.contains(&p));
        assert!((10..=50).contains(&p));
    }
}

// --- grade boundaries (delta in microseconds) ---

#[test]
fn grade_boundaries() {
    assert_eq!(grade(0).label(), "A+");
    assert_eq!(grade(4_990).label(), "A+");
    assert_eq!(grade(5_000).label(), "A");
    assert_eq!(grade(29_990).label(), "A");
    assert_eq!(grade(30_000).label(), "B");
    assert_eq!(grade(59_990).label(), "B");
    assert_eq!(grade(60_000).label(), "C");
    assert_eq!(grade(199_990).label(), "C");
    assert_eq!(grade(200_000).label(), "D");
    assert_eq!(grade(399_990).label(), "D");
    assert_eq!(grade(400_000).label(), "F");
    assert_eq!(grade(10_000_000).label(), "F");
}

#[test]
fn grade_unrated_label() {
    assert_eq!(Grade::Unrated.label(), "?");
}

#[test]
fn grade_labels_read_back() {
    for g in [Grade::APlus, Grade::A, Grade::B, Grade::C, Grade::D, Grade::F, Grade::Unrated] {
        assert_eq!(grade_from_label(g.label()), g);
    }
    assert_eq!(grade_from_label("A-"), Grade::Unrated);
    assert_eq!(grade_from_label(""), Grade::Unrated);
    assert_eq!(grade_from_label("AB"), Grade::Unrated);
}

#[test]
fn grade_never_improves_with_more_delay() {
    let order = [Grade::APlus, Grade::A, Grade::B, Grade::C, Grade::D, Grade::F];
    let rank = |g: Grade| order.iter().position(|x| *x == g).unwrap();
    let mut prev = 0;
    for d in (0..500_000u64).step_by(997) {
        let r = rank(grade(d));
        assert!(r >= prev);
        prev = r;
    }
}

// --- saturation streams ---

#[test]
fn saturation_streams_are_clamped() {
    assert_eq!(saturation_streams(0), 1);
    assert_eq!(saturation_streams(1), 1);
    assert_eq!(saturation_streams(4), 4);
    assert_eq!(saturation_streams(6), 6);
    assert_eq!(saturation_streams(8), 6);
}

// --- summary ---

#[test]
fn bufferbloat_without_idle_samples_is_unrated() {
    let r = summarize_bufferbloat(&[], &[90_000], 5_000_000);
    assert_eq!(
        r,
        BufferbloatResult {
            idle_centi_ms: 0,
            loaded_centi_ms: 0,
            delta_centi_ms: 0,
            grade: Grade::Unrated,
            data_used_centi_mib: 0,
        }
    );
}

#[test]
fn bufferbloat_without_loaded_samples_keeps_idle_and_data() {
    let r = summarize_bufferbloat(&[12_345, 11_004, 13_000], &[], 3 * 1_048_576);
    assert_eq!(r.idle_centi_ms, 1_100);
    assert_eq!(r.loaded_centi_ms, 0);
    assert_eq!(r.delta_centi_ms, 0);
    assert_eq!(r.grade, Grade::Unrated);
    assert_eq!(r.data_used_centi_mib, 300);
}

#[test]
fn bufferbloat_grades_p90_over_best_idle() {
    // best idle 10 ms; loaded samples 20..=110 ms, p90 of ten is the ninth: 100 ms
    let loaded: Vec<u64> = (2..=11).map(|v| v * 10_000).collect();
    let r = summarize_bufferbloat(&[15_000, 10_000, 12_000], &loaded, 52_428_800);
    assert_eq!(r.idle_centi_ms, 1_000);
    assert_eq!(r.loaded_centi_ms, 10_000);
    assert_eq!(r.delta_centi_ms, 9_000);
    assert_eq!(r.grade, Grade::C);
    assert_eq!(r.data_used_centi_mib, 5_000);
}

#[test]
fn bufferbloat_delta_never_negative() {
    let r = summarize_bufferbloat(&[30_000], &[20_000, 25_000], 0);
    assert_eq!(r.delta_centi_ms, 0);
    assert_eq!(r.grade, Grade::APlus);
    assert_eq!(r.loaded_centi_ms, 2_500);
}

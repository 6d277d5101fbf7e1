use calculator_lib::naive::{window_len, NaiveCalculator};
use calculator_lib::optimized::{InnerCalc, OptimizedCalculator};
use calculator_lib::service::{check_batch, requested_exponent, stream_stats, StatsQuery, MAX_BATCH_LEN};
use calculator_lib::stats::{StatsError, StatsResponse};
use calculator_lib::{naive, optimized, Calculator, DEFAULT_WINDOW_EXPONENTS, REFERENCE_CAPACITY};

fn zero() -> StatsResponse {
    StatsResponse::empty()
}

#[test]
fn equivalence_after_many_batches() {
    let mut n = NaiveCalculator::new(1000);
    let mut o = OptimizedCalculator::new(3);
    let mut x: i64 = 7;
    for round in 0..40 {
        let len = (round * 37) % 90;
        let batch: Vec<i32> = (0..len)
            .map(|_| {
                x = (x * 1103515245 + 12345) % 2147483648;
                (x % 21 - 10) as i32
            })
            .collect();
        n.append(&batch);
        o.append(&batch);
        for k in 1..=3 {
            assert_eq!(n.calculate_stats(k), o.calculate_stats(k));
        }
    }
}

#[test]
fn one_at_a_time_matches_one_batch() {
    let values: Vec<i32> = (0..250).map(|i| ((i * 7919) % 101) - 50).collect();
    let mut whole = OptimizedCalculator::new(3);
    whole.append(&values);
    let mut single = OptimizedCalculator::new(3);
    for v in &values {
        single.append(&[*v]);
    }
    for k in 1..=3 {
        assert_eq!(whole.calculate_stats(k), single.calculate_stats(k));
    }
}

#[test]
fn eviction_keeps_most_recent_capacity_values() {
    let mut c = InnerCalc::new(10);
    let values: Vec<i32> = (1..=13).collect();
    c.append(&values);
    let s = c.calculate_stats();
    assert_eq!(s.count, 10);
    assert_eq!(s.min, 4);
    assert_eq!(s.max, 13);
    assert_eq!(s.sum, (4..=13).sum::<i32>() as i128);
}

#[test]
fn duplicate_min_at_boundary() {
    let mut c = InnerCalc::new(3);
    c.append(&[1, 5, 1]);
    assert_eq!(c.calculate_stats().min, 1);
    c.append(&[7]);
    let s = c.calculate_stats();
    assert_eq!(s.min, 1);
    assert_eq!(s.max, 7);
    c.append(&[8]);
    assert_eq!(c.calculate_stats().min, 1);
    c.append(&[9]);
    assert_eq!(c.calculate_stats().min, 7);
}

#[test]
fn duplicate_max_at_boundary() {
    let mut c = InnerCalc::new(3);
    c.append(&[9, 2, 9, 3]);
    let s = c.calculate_stats();
    assert_eq!(s.max, 9);
    assert_eq!(s.min, 2);
    c.append(&[1, 0]);
    let s = c.calculate_stats();
    assert_eq!(s.max, 3);
    assert_eq!(s.min, 0);
}

#[test]
fn fresh_aggregator_reports_zeros() {
    let o = optimized();
    for k in 1..=DEFAULT_WINDOW_EXPONENTS {
        assert_eq!(o.calculate_stats(k), Ok(zero()));
    }
    let n = NaiveCalculator::new(5);
    assert_eq!(n.calculate_stats(1), Ok(zero()));
    assert_eq!(zero().count, 0);
    assert_eq!(zero().sum_sq, 0);
}

#[test]
fn out_of_range_exponents() {
    let o = OptimizedCalculator::new(DEFAULT_WINDOW_EXPONENTS);
    assert_eq!(o.calculate_stats(0), Err(StatsError::InvalidWindowExponent));
    assert_eq!(o.calculate_stats(9), Err(StatsError::InvalidWindowExponent));
    assert!(o.calculate_stats(8).is_ok());
    assert_eq!(o.max_exponent(), 8);
}

#[test]
fn scenario_three_values() {
    let mut c = InnerCalc::new(3);
    c.append(&[1, 2, 3]);
    let s = c.calculate_stats();
    assert_eq!((s.last, s.min, s.max, s.count, s.sum, s.sum_sq), (3, 1, 3, 3, 6, 14));
}

#[test]
fn scenario_million_values_exact_moments() {
    let mut c = InnerCalc::new(1_000_000);
    let values: Vec<i32> = (0..1_000_000).collect();
    c.append(&values);
    let s = c.calculate_stats();
    assert_eq!(s.min, 0);
    assert_eq!(s.max, 999_999);
    assert_eq!(s.last, 999_999);
    assert_eq!(s.count, 1_000_000);
    assert_eq!(s.sum, 499_999_500_000);
    assert_eq!(s.sum_sq, 333_332_833_333_500_000);
}

#[test]
fn extreme_values_do_not_overflow() {
    let mut c = InnerCalc::new(4);
    c.append(&[i32::MIN, i32::MAX, i32::MIN, i32::MIN, i32::MAX]);
    let s = c.calculate_stats();
    assert_eq!(s.count, 4);
    assert_eq!(s.min, i32::MIN);
    assert_eq!(s.max, i32::MAX);
    assert_eq!(s.sum, 2 * i32::MIN as i128 + 2 * i32::MAX as i128);
    let sq = |v: i32| (v as i128 * v as i128) as u128;
    assert_eq!(s.sum_sq, 2 * sq(i32::MIN) + 2 * sq(i32::MAX));
}

#[test]
fn capacity_one_window() {
    let mut c = InnerCalc::new(1);
    assert_eq!(c.capacity(), 1);
    c.append(&[5, -3, 4]);
    let s = c.calculate_stats();
    assert_eq!((s.last, s.min, s.max, s.count, s.sum, s.sum_sq), (4, 4, 4, 1, 4, 16));
}

#[test]
fn empty_batch_is_a_no_op() {
    let mut c = InnerCalc::new(3);
    c.append(&[2, 4]);
    let before = c.calculate_stats();
    c.append(&[]);
    assert_eq!(c.calculate_stats(), before);
}

#[test]
fn naive_window_is_clipped_to_buffer() {
    let mut n = NaiveCalculator::new(50);
    let values: Vec<i32> = (0..120).collect();
    n.append(&values);
    let s = n.calculate_stats(1).unwrap();
    assert_eq!((s.count, s.min, s.max), (10, 110, 119));
    let s = n.calculate_stats(2).unwrap();
    assert_eq!((s.count, s.min, s.max), (50, 70, 119));
    let s = n.calculate_stats(0).unwrap();
    assert_eq!((s.count, s.min, s.max), (1, 119, 119));
    let s = n.calculate_stats(200).unwrap();
    assert_eq!(s.count, 50);
}

#[test]
fn window_len_saturates() {
    assert_eq!(window_len(0, 5), 1);
    assert_eq!(window_len(1, 5), 5);
    assert_eq!(window_len(1, 500), 10);
    assert_eq!(window_len(3, 500), 500);
    assert_eq!(window_len(255, usize::MAX), usize::MAX);
    assert_eq!(window_len(4, 0), 0);
}

#[test]
fn request_exponent_defaults_and_bounds() {
    assert_eq!(requested_exponent(None, 8), Ok(1));
    assert_eq!(requested_exponent(Some(8), 8), Ok(8));
    assert_eq!(requested_exponent(Some(0), 8), Err(StatsError::InvalidWindowExponent));
    assert_eq!(requested_exponent(Some(9), 8), Err(StatsError::InvalidWindowExponent));
    assert_eq!(requested_exponent(Some(u32::MAX), 8), Err(StatsError::InvalidWindowExponent));
}

#[test]
fn batch_limit() {
    assert_eq!(check_batch(MAX_BATCH_LEN, MAX_BATCH_LEN), Ok(()));
    assert_eq!(check_batch(0, MAX_BATCH_LEN), Ok(()));
    assert_eq!(check_batch(MAX_BATCH_LEN + 1, MAX_BATCH_LEN), Err(StatsError::BatchTooLarge));
}

#[test]
fn stream_stats_routes_by_exponent() {
    let mut o = OptimizedCalculator::new(2);
    o.append(&(0..150).collect::<Vec<i32>>());
    let s = stream_stats(Some(&o), Some(2)).unwrap();
    assert_eq!((s.count, s.min, s.max), (100, 50, 149));
    let s = stream_stats(Some(&o), None).unwrap();
    assert_eq!((s.count, s.min, s.max), (10, 140, 149));
    assert_eq!(stream_stats(Some(&o), Some(3)), Err(StatsError::InvalidWindowExponent));
    assert_eq!(stream_stats(None, Some(0)), Err(StatsError::InvalidWindowExponent));
}

#[test]
fn default_reference_capacity() {
    assert_eq!(REFERENCE_CAPACITY, 100_000_000);
    let mut n = naive();
    n.append(&[3, 1, 2]);
    let s = n.calculate_stats(8).unwrap();
    assert_eq!((s.last, s.min, s.max, s.count, s.sum, s.sum_sq), (2, 1, 3, 3, 6, 14));
}

#[test]
fn stats_query_exponent() {
    let q = StatsQuery { symbol: "TEST".to_string(), k: None };
    assert_eq!(q.exponent(), Ok(1));
    let q = StatsQuery { symbol: "TEST".to_string(), k: Some(9) };
    assert_eq!(q.exponent(), Err(StatsError::InvalidWindowExponent));
    let q = StatsQuery { symbol: "TEST".to_string(), k: Some(8) };
    assert_eq!(q.exponent(), Ok(8));
}

#[test]
fn variance_fraction_exact() {
    let mut c = InnerCalc::new(3);
    c.append(&[1, 2, 3]);
    assert_eq!(c.calculate_stats().variance_fraction(), Some((6, 9)));
    let mut c = InnerCalc::new(1_000_000);
    c.append(&(0..1_000_000).collect::<Vec<i32>>());
    let (num, den) = c.calculate_stats().variance_fraction().unwrap();
    assert_eq!(den, 1_000_000_000_000);
    assert_eq!(num, 83_333_333_333_250_000_000_000);
    let mut c = InnerCalc::new(5);
    c.append(&[7, 7, 7, 7, 7, 7]);
    assert_eq!(c.calculate_stats().variance_fraction(), Some((0, 25)));
}

#[test]
fn variance_fraction_refusals() {
    assert_eq!(zero().variance_fraction(), None);
    let big = StatsResponse { last: 0, min: 0, max: 0, count: u64::MAX, sum: 0, sum_sq: u128::MAX };
    assert_eq!(big.variance_fraction(), None);
    let wide_sum = StatsResponse { last: 0, min: 0, max: 0, count: 2, sum: i128::MIN, sum_sq: 1 };
    assert_eq!(wide_sum.variance_fraction(), None);
    let negative = StatsResponse { last: 0, min: 0, max: 0, count: 1, sum: 5, sum_sq: 1 };
    assert_eq!(negative.variance_fraction(), None);
    let odd = StatsResponse { last: 0, min: 0, max: 0, count: 2, sum: -3, sum_sq: 5 };
    assert_eq!(odd.variance_fraction(), Some((1, 4)));
}

use calculator_lib::naive::NaiveCalculator;
use calculator_lib::optimized::OptimizedCalculator;
use calculator_lib::service::stream_stats;
use calculator_lib::stats::{StatsError, StatsResponse};
use calculator_lib::{naive, optimized, Calculator};

fn avg(s: &StatsResponse) -> f64 {
    s.sum as f64 / s.count as f64
}

/// Population variance, from its exact fraction.
fn var(s: &StatsResponse) -> f64 {
    let (num, den) = s.variance_fraction().unwrap();
    num as f64 / den as f64
}

fn relative_eq(a: f64, b: f64, tol: f64) -> bool {
    if a == b {
        return true;
    }
    (a - b).abs() <= tol * a.abs().max(b.abs())
}

/// A small deterministic generator of values in `-1000..1000`.
struct Lcg(u64);

impl Lcg {
    fn next(&mut self) -> u64 {
        self.0 = self.0.wrapping_mul(6364136223846793005).wrapping_add(1442695040888963407);
        self.0 >> 33
    }

    fn range(&mut self, lo: i64, hi: i64) -> i64 {
        lo + (self.next() % ((hi - lo) as u64)) as i64
    }
}

#[test]
fn lib_compare_implementations() {
    let mut rng = Lcg(42);
    let mut naive = naive();
    let mut optimized = optimized();

    for _ in 0..10 {
        let batch_size = rng.range(1, 1001);
        let values: Vec<i32> = (0..batch_size).map(|_| rng.range(-1000, 1000) as i32).collect();

        naive.append(&values);
        optimized.append(&values);

        for i in 1..=8 {
            let a = naive.calculate_stats(i).unwrap();
            let b = optimized.calculate_stats(i).unwrap();
            assert_eq!(a.last, b.last);
            assert_eq!(a.min, b.min);
            assert_eq!(a.max, b.max);
            assert!(relative_eq(avg(&a), avg(&b), 0.00000001));
            assert!(relative_eq(var(&a), var(&b), 0.00000001));
            assert_eq!(a, b);
        }
    }
}

#[test]
fn optimized_test_naive_calculator_10_3() {
    let mut calc = OptimizedCalculator::new(3);
    calc.append(&[1, 2, 3]);
    let stats = calc.calculate_stats(1).unwrap();
    assert_eq!(stats.min, 1);
    assert_eq!(stats.max, 3);
    assert_eq!(stats.last, 3);
    assert_eq!(avg(&stats), 2.0);
    assert!(relative_eq(var(&stats), 0.6666666666666666, 1e-15));
}

#[test]
fn optimized_test_naive_calculator_1_mln_elements() {
    let mut calc = OptimizedCalculator::new(8);
    let mut values = Vec::new();
    for i in 0..1000000 {
        values.push(i as i32);
    }
    calc.append(&values);
    let stats = calc.calculate_stats(6).unwrap();
    assert_eq!(stats.min, 0);
    assert_eq!(stats.max, 999999);
    assert_eq!(stats.last, 999999);
    assert_eq!(avg(&stats), 499999.5);
    assert!(relative_eq(var(&stats), 83333333332.87756, 1e-8));
}

#[test]
fn test_naive_calculator_buffer_overflow() {
    let mut calc = NaiveCalculator::new(3);
    calc.append(&[1, 2, 3, 4]);
    assert_eq!(calc.len(), 3);
    assert_eq!(calc.value_at(0), 4);
    assert_eq!(calc.value_at(1), 3);
    assert_eq!(calc.value_at(2), 2);
}

#[test]
fn test_naive_calculator_1000_params() {
    let mut calc = NaiveCalculator::new(10);
    let mut values = Vec::new();
    for i in 0..1000 {
        values.push(i as i32);
    }
    calc.append(&values);
    assert_eq!(calc.len(), 10);
    assert_eq!(calc.value_at(0), 999);
    assert_eq!(calc.value_at(9), 990);
}

#[test]
fn naive_test_naive_calculator_10_3() {
    let mut calc = NaiveCalculator::new(3);
    calc.append(&[1, 2, 3]);
    let stats = calc.calculate_stats(1).unwrap();
    assert_eq!(stats.min, 1);
    assert_eq!(stats.max, 3);
    assert_eq!(stats.last, 3);
    assert_eq!(avg(&stats), 2.0);
    assert_eq!(var(&stats), 0.6666666666666666);
}

#[test]
fn naive_test_naive_calculator_1_mln_elements() {
    let mut calc = NaiveCalculator::new(1000000);
    let mut values = Vec::new();
    for i in 0..1000000 {
        values.push(i as i32);
    }
    calc.append(&values);
    let stats = calc.calculate_stats(6).unwrap();
    assert_eq!(stats.min, 0);
    assert_eq!(stats.max, 999999);
    assert_eq!(stats.last, 999999);
    assert_eq!(avg(&stats), 499999.5);
    assert!(relative_eq(var(&stats), 83333333333.91629, 1e-8));
}

#[test]
fn test_stats_handler() {
    let mut calc = optimized();
    calc.append(&[10, 20, 30]);

    let ok = stream_stats(Some(&calc), Some(1));
    assert!(ok.is_ok());

    let bad = stream_stats(Some(&calc), Some(9));
    assert_eq!(bad, Err(StatsError::InvalidWindowExponent));

    let missing = stream_stats(None, None);
    assert_eq!(missing, Err(StatsError::UnknownStream));
}

use cpu_benchmark::benchmark::{DEFAULT_MULTI_COEFFICIENT, DEFAULT_SINGLE_COEFFICIENT, PICO_PER_POINT};
use cpu_benchmark::rating::{Rating, rate};
use cpu_benchmark::scoring::{COMPOSITE_PER_POINT, MULTI_WEIGHT_PERCENT, NORMALIZATION_FACTOR_PERCENT, SINGLE_WEIGHT_PERCENT};
use cpu_benchmark::{
    aggregate, build_report, calculate_cpu_score, coefficient, normalize, ratio, score,
    weighted_score, Benchmark, BenchmarkResult, BenchmarkScore, Category,
};

fn result(name: &str, category: Category, ops_milli: i64) -> BenchmarkResult {
    BenchmarkResult {
        name: name.to_string(),
        category,
        execution_time_nanos: 1_000_000,
        ops_per_second_milli: ops_milli,
        is_valid: true,
        metrics_json: "{}".to_string(),
    }
}

fn scored(name: &str, category: Category, points: i128) -> BenchmarkScore {
    BenchmarkScore {
        name: name.to_string(),
        category,
        ops_per_second_milli: 0,
        score: points * PICO_PER_POINT,
    }
}

const POINT: u64 = 1_000_000_000_000;

#[test]
fn nqueens_single_core_scores_seventy() {
    let results = vec![result("Single-Core N-Queens", Category::SingleCore, 100_000_000)];
    let scores = normalize(&results);
    assert_eq!(scores.len(), 1);
    assert_eq!(scores[0].name, "Single-Core N-Queens");
    assert_eq!(scores[0].category, Category::SingleCore);
    assert_eq!(scores[0].ops_per_second_milli, 100_000_000);
    assert_eq!(scores[0].score, 70 * PICO_PER_POINT);
}

#[test]
fn normalize_keeps_order_and_length() {
    let results = vec![
        result("Multi-Core Prime Generation", Category::MultiCore, 1_000),
        result("Single-Core Prime Generation", Category::SingleCore, 1_000),
        result("Mystery", Category::SingleCore, 1_000),
    ];
    let scores = normalize(&results);
    assert_eq!(scores.len(), 3);
    assert_eq!(scores[0].name, "Multi-Core Prime Generation");
    assert_eq!(scores[0].score, 200_000);
    assert_eq!(scores[1].score, 10_000);
    assert_eq!(scores[2].score, 100_000_000);
}

#[test]
fn normalize_empty_list() {
    let scores = normalize(&Vec::new());
    assert!(scores.is_empty());
}

#[test]
fn normalize_passes_negative_throughput_through() {
    let results = vec![result("Single-Core N-Queens", Category::SingleCore, -2_000)];
    let scores = normalize(&results);
    assert_eq!(scores[0].score, -2_000 * 700_000);
}

#[test]
fn normalize_extreme_throughput() {
    let results = vec![result("Multi-Core Fibonacci Memoized", Category::MultiCore, i64::MAX)];
    let scores = normalize(&results);
    assert_eq!(scores[0].score, i64::MAX as i128 * 2_400_000);
}

#[test]
fn coefficients_of_all_canonical_names() {
    let expected: [(&str, u64); 20] = [
        ("Single-Core Prime Generation", 10),
        ("Single-Core Fibonacci Recursive", 120_000),
        ("Single-Core Matrix Multiplication", 25),
        ("Single-Core Hash Computing", 10),
        ("Single-Core String Sorting", 150),
        ("Single-Core Ray Tracing", 600),
        ("Single-Core Compression", 70),
        ("Single-Core Monte Carlo π", 700),
        ("Single-Core JSON Parsing", 400),
        ("Single-Core N-Queens", 700_000),
        ("Multi-Core Prime Generation", 200),
        ("Multi-Core Fibonacci Memoized", 2_400_000),
        ("Multi-Core Matrix Multiplication", 100),
        ("Multi-Core Hash Computing", 200),
        ("Multi-Core String Sorting", 300),
        ("Multi-Core Ray Tracing", 3_000),
        ("Multi-Core Compression", 35),
        ("Multi-Core Monte Carlo π", 3_500),
        ("Multi-Core JSON Parsing", 2_000),
        ("Multi-Core N-Queens", 35_000),
    ];
    for (name, c) in expected.iter() {
        assert_eq!(coefficient(name), *c, "{}", name);
        assert_ne!(*c, DEFAULT_SINGLE_COEFFICIENT);
        assert_ne!(*c, DEFAULT_MULTI_COEFFICIENT);
    }
}

#[test]
fn catalogue_names_round_trip() {
    let all = Benchmark::all();
    assert_eq!(all.len(), 20);
    for b in all.iter() {
        assert_eq!(Benchmark::from_name(b.name()), Some(*b));
        assert_eq!(coefficient(b.name()), b.coefficient());
    }
    assert_eq!(all.iter().filter(|b| b.category() == Category::SingleCore).count(), 10);
    assert_eq!(Benchmark::from_name("Single-Core N-Queens "), None);
}

#[test]
fn unknown_names_fall_back_by_category_text() {
    assert_eq!(coefficient("Unknown-Core Foo"), DEFAULT_SINGLE_COEFFICIENT);
    assert_eq!(coefficient("Multi-Core Foo"), DEFAULT_MULTI_COEFFICIENT);
    assert_eq!(coefficient(""), DEFAULT_SINGLE_COEFFICIENT);
    assert_eq!(coefficient("x Multi-Core"), DEFAULT_MULTI_COEFFICIENT);
    assert_eq!(coefficient("multi-core prime generation"), DEFAULT_SINGLE_COEFFICIENT);
    assert_eq!(DEFAULT_SINGLE_COEFFICIENT, 100_000);
    assert_eq!(DEFAULT_MULTI_COEFFICIENT, 50_000);
}

#[test]
fn category_sums_and_weighted_composite() {
    let mut scores = Vec::new();
    for i in 0..10 {
        scores.push(scored(&format!("Single {}", i), Category::SingleCore, 70));
        scores.push(scored(&format!("Multi {}", i), Category::MultiCore, 130));
    }
    let single = aggregate(&scores, Category::SingleCore);
    let multi = aggregate(&scores, Category::MultiCore);
    assert_eq!(single, 700 * POINT);
    assert_eq!(multi, 1300 * POINT);
    let composite = score(single, multi);
    assert_eq!(composite, 1090 * COMPOSITE_PER_POINT);
    assert_eq!(weighted_score(single, multi), 1090 * COMPOSITE_PER_POINT);
    assert_eq!(rate(composite), Rating::Good);
    assert_eq!(rate(composite).label(), "★★★☆☆ (Good Performance)");
}

#[test]
fn all_zero_scores_rate_low() {
    let mut results = Vec::new();
    for b in Benchmark::all().iter() {
        results.push(result(b.name(), b.category(), 0));
    }
    let report = build_report(&results);
    assert_eq!(report.single_core_sum, 0);
    assert_eq!(report.multi_core_sum, 0);
    assert_eq!(report.composite, 0);
    assert_eq!(report.core_ratio, 0);
    assert_eq!(report.rating, Rating::Low);
    assert_eq!(report.rating.label(), "☆☆☆ (Low Performance)");
    assert_eq!(calculate_cpu_score(&results), 0);
}

#[test]
fn negative_score_is_excluded_not_subtracted() {
    let scores = vec![
        scored("a", Category::SingleCore, -50),
        scored("b", Category::SingleCore, 120),
    ];
    assert_eq!(aggregate(&scores, Category::SingleCore), 120 * POINT);
    assert_eq!(aggregate(&scores, Category::MultiCore), 0);
}

#[test]
fn category_sum_never_negative() {
    let scores = vec![
        scored("a", Category::MultiCore, -500),
        scored("b", Category::MultiCore, -1),
        scored("c", Category::MultiCore, 0),
    ];
    assert_eq!(aggregate(&scores, Category::MultiCore), 0);
    assert_eq!(aggregate(&Vec::new(), Category::SingleCore), 0);
}

#[test]
fn category_sum_saturates() {
    let scores = vec![
        BenchmarkScore { name: "a".to_string(), category: Category::SingleCore, ops_per_second_milli: 0, score: i128::MAX },
        BenchmarkScore { name: "b".to_string(), category: Category::SingleCore, ops_per_second_milli: 0, score: 5 },
    ];
    assert_eq!(aggregate(&scores, Category::SingleCore), u64::MAX);
    let near = vec![
        BenchmarkScore { name: "a".to_string(), category: Category::SingleCore, ops_per_second_milli: 0, score: (u64::MAX - 1) as i128 },
        BenchmarkScore { name: "b".to_string(), category: Category::SingleCore, ops_per_second_milli: 0, score: 1 },
    ];
    assert_eq!(aggregate(&near, Category::SingleCore), u64::MAX);
}

#[test]
fn ratio_of_zero_sums_is_zero() {
    assert_eq!(ratio(0, 0), 0);
}

#[test]
fn ratio_over_zero_single_is_zero() {
    assert_eq!(ratio(5, 0), 0);
    assert_eq!(ratio(u64::MAX, 0), 0);
}

#[test]
fn ratio_in_ten_thousandths() {
    assert_eq!(ratio(1300, 700), 18_571);
    assert_eq!(ratio(2, 1), 20_000);
    assert_eq!(ratio(u64::MAX, 1), u64::MAX as u128 * 10_000);
}

#[test]
fn weights_apply_per_category() {
    let s: u64 = 1234 * POINT;
    let m: u64 = 987 * POINT;
    assert_eq!(score(s, 0), s as u128 * SINGLE_WEIGHT_PERCENT * NORMALIZATION_FACTOR_PERCENT);
    assert_eq!(score(0, m), m as u128 * MULTI_WEIGHT_PERCENT * NORMALIZATION_FACTOR_PERCENT);
    assert_eq!(score(u64::MAX, u64::MAX), u64::MAX as u128 * 100 * 100);
}

#[test]
fn rating_bands_and_boundaries() {
    let p = COMPOSITE_PER_POINT;
    assert_eq!(rate(0), Rating::Low);
    assert_eq!(rate(300 * p - 1), Rating::Low);
    assert_eq!(rate(300 * p), Rating::Basic);
    assert_eq!(rate(600 * p), Rating::Moderate);
    assert_eq!(rate(1000 * p - 1), Rating::Moderate);
    assert_eq!(rate(1000 * p), Rating::Good);
    assert_eq!(rate(1500 * p), Rating::High);
    assert_eq!(rate(1800 * p), Rating::Exceptional);
    assert_eq!(rate(u128::MAX), Rating::Exceptional);
    assert_eq!(Rating::Basic.label(), "★☆☆☆ (Basic Performance)");
    assert_eq!(Rating::Moderate.label(), "★★☆☆☆ (Moderate Performance)");
    assert_eq!(Rating::High.label(), "★★★★☆ (High Performance)");
    assert_eq!(Rating::Exceptional.label(), "★★★ (Exceptional Performance)");
}

fn rank(r: Rating) -> u32 {
    match r {
        Rating::Low => 0,
        Rating::Basic => 1,
        Rating::Moderate => 2,
        Rating::Good => 3,
        Rating::High => 4,
        Rating::Exceptional => 5,
    }
}

#[test]
fn rating_never_drops_as_score_rises() {
    let mut last = 0;
    for points in (0..2500u128).step_by(7) {
        let r = rank(rate(points * COMPOSITE_PER_POINT));
        assert!(r >= last);
        last = r;
    }
}

#[test]
fn scoring_is_repeatable() {
    let mut results = Vec::new();
    for (i, b) in Benchmark::all().iter().enumerate() {
        results.push(result(b.name(), b.category(), 1_000_000 * (i as i64 + 1)));
    }
    let a = build_report(&results);
    let b = build_report(&results);
    assert_eq!(a.scores.len(), b.scores.len());
    for (x, y) in a.scores.iter().zip(b.scores.iter()) {
        assert_eq!(x.score, y.score);
    }
    assert_eq!(a.single_core_sum, b.single_core_sum);
    assert_eq!(a.multi_core_sum, b.multi_core_sum);
    assert_eq!(a.composite, b.composite);
    assert_eq!(calculate_cpu_score(&results), a.composite);
}

#[test]
fn validity_flag_does_not_gate_scores() {
    let mut r = result("Single-Core N-Queens", Category::SingleCore, 100_000_000);
    r.is_valid = false;
    let report = build_report(&vec![r]);
    assert_eq!(report.single_core_sum, 70 * POINT);
}

#[test]
fn category_is_tracked_not_inferred() {
    let results = vec![result("Multi-Core N-Queens", Category::SingleCore, 1_000_000)];
    let report = build_report(&results);
    assert_eq!(report.single_core_sum, 35_000_000_000);
    assert_eq!(report.multi_core_sum, 0);
}

#[test]
fn report_of_a_mixed_run() {
    let results = vec![
        result("Single-Core N-Queens", Category::SingleCore, 100_000_000),
        result("Multi-Core N-Queens", Category::MultiCore, 4_000_000_000),
        result("Single-Core Ray Tracing", Category::SingleCore, -5),
    ];
    let report = build_report(&results);
    assert_eq!(report.single_core_sum, 70 * POINT);
    assert_eq!(report.multi_core_sum, 140 * POINT);
    assert_eq!(report.core_ratio, 20_000);
    assert_eq!(report.composite, (70 * 35 + 140 * 65) as u128 * COMPOSITE_PER_POINT / 100);
    assert_eq!(report.rating, Rating::Low);
}

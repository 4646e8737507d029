//! Normalisation of raw measurements into scores, their aggregation by
//! category, and the weighted composite with its rating.
//!
//! Units: a score is in trillionths of a point (`PICO_PER_POINT`); a category
//! sum likewise; a composite is in units of 10^-16 points
//! (`COMPOSITE_PER_POINT`), which keeps the weights and the normalisation
//! factor, both given in hundredths, exact.

use vstd::prelude::*;
use crate::benchmark::{Category, coefficient, coefficient_of};

verus! {

/// Weight of the single-core category sum, in hundredths.
pub const SINGLE_WEIGHT_PERCENT: u128 = 35;

/// Weight of the multi-core category sum, in hundredths.
pub const MULTI_WEIGHT_PERCENT: u128 = 65;

/// Multiplier applied to the weighted sum, in hundredths (100 is identity).
pub const NORMALIZATION_FACTOR_PERCENT: u128 = 100;

/// Composite units in one point.
pub const COMPOSITE_PER_POINT: u128 = 10_000_000_000_000_000;

/// A category ratio is given in ten-thousandths.
pub const RATIO_SCALE: u128 = 10_000;

/// What one benchmark run reports.
pub struct BenchmarkResult {
    /// One of the canonical benchmark names, or any other text.
    pub name: String,
    /// The category the run belongs to, as supplied by whoever ran it.
    pub category: Category,
    /// Wall-clock time of the run.
    pub execution_time_nanos: u64,
    /// Throughput, in thousandths of an operation per second.
    pub ops_per_second_milli: i64,
    /// The workload's own check of its output; informational only.
    pub is_valid: bool,
    /// Workload-specific diagnostics, as JSON text, passed through untouched.
    pub metrics_json: String,
}

/// The normalised score of one run.
pub struct BenchmarkScore {
    pub name: String,
    pub category: Category,
    /// Throughput, in thousandths of an operation per second.
    pub ops_per_second_milli: i64,
    /// Score, in trillionths of a point.
    pub score: i128,
}

/// The score a result is worth: its throughput times its name's coefficient.
pub open spec fn value_of(r: BenchmarkResult) -> int {
    r.ops_per_second_milli * coefficient_of(r.name@)
}

/// The score record that a result normalises to.
pub open spec fn score_of(r: BenchmarkResult) -> BenchmarkScore {
    BenchmarkScore {
        name: r.name,
        category: r.category,
        ops_per_second_milli: r.ops_per_second_milli,
        score: value_of(r) as i128,
    }
}

/// One score per result, in the same order.
pub open spec fn scores_of(results: Seq<BenchmarkResult>) -> Seq<BenchmarkScore> {
    results.map_values(|r: BenchmarkResult| score_of(r))
}

/// What a score adds to the sum of `c`: its value where it belongs to `c`
/// and is positive, else nothing.
pub open spec fn contribution(s: BenchmarkScore, c: Category) -> int {
    if s.category == c && s.score > 0 {
        s.score as int
    } else {
        0
    }
}

/// The sum of the positive scores of category `c`.
pub open spec fn category_sum(s: Seq<BenchmarkScore>, c: Category) -> int
    decreases s.len(),
{
    if s.len() == 0 {
        0
    } else {
        category_sum(s.drop_last(), c) + contribution(s.last(), c)
    }
}

/// `x`, or the largest `u64` where `x` exceeds it.
pub open spec fn saturate(x: int) -> int {
    if x > u64::MAX {
        u64::MAX as int
    } else {
        x
    }
}

/// The multi/single ratio in ten-thousandths, rounded down; zero where the
/// single-core sum is not positive.
pub open spec fn ratio_of(multi_sum: int, single_sum: int) -> int {
    if single_sum > 0 {
        multi_sum * RATIO_SCALE / single_sum
    } else {
        0
    }
}

/// The weighted sum of two category sums, before normalisation.
pub open spec fn weighted_of(single_sum: int, multi_sum: int) -> int {
    (SINGLE_WEIGHT_PERCENT * single_sum + MULTI_WEIGHT_PERCENT * multi_sum) * 100
}

/// The composite score of two category sums.
pub open spec fn composite_of(single_sum: int, multi_sum: int) -> int {
    (SINGLE_WEIGHT_PERCENT * single_sum + MULTI_WEIGHT_PERCENT * multi_sum)
        * NORMALIZATION_FACTOR_PERCENT
}

/// The composite score of a list of results: each category's positive
/// scores summed, then weighted.
pub open spec fn cpu_score_of(results: Seq<BenchmarkResult>) -> int {
    composite_of(
        saturate(category_sum(scores_of(results), Category::SingleCore)),
        saturate(category_sum(scores_of(results), Category::MultiCore)),
    )
}

/// A result's value fits comfortably in an `i128`.
proof fn lemma_value_bounds(r: BenchmarkResult)
    ensures
        -0x1000_0000_0000_0000_0000_0000 <= value_of(r) <= 0x1000_0000_0000_0000_0000_0000,
{
    let x = r.ops_per_second_milli as int;
    let c = coefficient_of(r.name@) as int;
    assert(c <= 2_400_000);
    assert(-0x8000_0000_0000_0000 <= x <= 0x8000_0000_0000_0000);
    assert(-0x1000_0000_0000_0000_0000_0000 <= x * c <= 0x1000_0000_0000_0000_0000_0000)
        by (nonlinear_arith)
        requires
            -0x8000_0000_0000_0000 <= x <= 0x8000_0000_0000_0000,
            0 <= c <= 2_400_000,
    ;
}

/// Normalises one result.
fn score_result(r: &BenchmarkResult) -> (s: BenchmarkScore)
    ensures
        s == score_of(*r),
        s.score == value_of(*r),
{
    proof {
        lemma_value_bounds(*r);
    }
    let c = coefficient(r.name.as_str());
    let value = (r.ops_per_second_milli as i128) * (c as i128);
    BenchmarkScore {
        name: r.name.clone(),
        category: r.category,
        ops_per_second_milli: r.ops_per_second_milli,
        score: value,
    }
}

/// Turns each result into its score, one output per input and in the same
/// order: the score is the throughput times the coefficient of the result's
/// name. Never fails.
pub fn normalize(results: &Vec<BenchmarkResult>) -> (r: Vec<BenchmarkScore>)
    ensures
        r@ == scores_of(results@),
        forall|i: int| 0 <= i < r@.len() ==> r@[i].score == value_of(results@[i]),
{
    let mut out: Vec<BenchmarkScore> = Vec::new();
    let mut i: usize = 0;
    while i < results.len()
        invariant
            i <= results@.len(),
            out@ == scores_of(results@.subrange(0, i as int)),
            forall|j: int| 0 <= j < i ==> out@[j].score == value_of(results@[j]),
        decreases results@.len() - i,
    {
        let s = score_result(&results[i]);
        out.push(s);
        i += 1;
        assert(out@ =~= scores_of(results@.subrange(0, i as int)));
    }
    assert(results@.subrange(0, results@.len() as int) =~= results@);
    out
}

/// A category sum is never negative, whatever the signs of the scores.
pub proof fn lemma_category_sum_nonnegative(s: Seq<BenchmarkScore>, c: Category)
    ensures
        category_sum(s, c) >= 0,
    decreases s.len(),
{
    if s.len() > 0 {
        lemma_category_sum_nonnegative(s.drop_last(), c);
    }
}

/// Sums the positive scores of one category, in trillionths of a point.
/// Scores of the other category, and scores that are zero or negative, add
/// nothing. The sum stops at `u64::MAX` (about 18 million points).
pub fn aggregate(scores: &Vec<BenchmarkScore>, category: Category) -> (r: u64)
    ensures
        r == saturate(category_sum(scores@, category)),
{
    let mut acc: u64 = 0;
    let mut i: usize = 0;
    while i < scores.len()
        invariant
            i <= scores@.len(),
            acc == saturate(category_sum(scores@.subrange(0, i as int), category)),
        decreases scores@.len() - i,
    {
        let s = &scores[i];
        proof {
            let prefix = scores@.subrange(0, i as int);
            let next = scores@.subrange(0, i + 1);
            assert(next.drop_last() =~= prefix);
            assert(next.last() == scores@[i as int]);
            lemma_category_sum_nonnegative(prefix, category);
        }
        if s.category == category && s.score > 0 {
            let room = u64::MAX - acc;
            if s.score >= room as i128 {
                acc = u64::MAX;
            } else {
                acc = acc + s.score as u64;
            }
        }
        i += 1;
    }
    assert(scores@.subrange(0, scores@.len() as int) =~= scores@);
    acc
}

/// The ratio of the multi-core sum to the single-core sum, in
/// ten-thousandths and rounded down: a measure of parallel scaling. It is
/// zero where the single-core sum is zero, never a fault.
pub fn ratio(multi_sum: u64, single_sum: u64) -> (r: u128)
    ensures
        r == ratio_of(multi_sum as int, single_sum as int),
{
    if single_sum > 0 {
        (multi_sum as u128) * RATIO_SCALE / (single_sum as u128)
    } else {
        0
    }
}

/// The weighted sum of the two category sums before normalisation, in
/// composite units.
pub fn weighted_score(single_sum: u64, multi_sum: u64) -> (r: u128)
    ensures
        r == weighted_of(single_sum as int, multi_sum as int),
{
    (SINGLE_WEIGHT_PERCENT * (single_sum as u128) + MULTI_WEIGHT_PERCENT * (multi_sum as u128))
        * 100
}

/// The composite score of the two category sums, in composite units: each
/// sum weighted, then multiplied by the normalisation factor.
pub fn score(single_sum: u64, multi_sum: u64) -> (r: u128)
    ensures
        r == composite_of(single_sum as int, multi_sum as int),
{
    (SINGLE_WEIGHT_PERCENT * (single_sum as u128) + MULTI_WEIGHT_PERCENT * (multi_sum as u128))
        * NORMALIZATION_FACTOR_PERCENT
}

/// The composite score of a whole run: the results are normalised, summed
/// per category over their positive scores, and weighted.
pub fn calculate_cpu_score(results: &Vec<BenchmarkResult>) -> (r: u128)
    ensures
        r == cpu_score_of(results@),
{
    let scores = normalize(results);
    let single_sum = aggregate(&scores, Category::SingleCore);
    let multi_sum = aggregate(&scores, Category::MultiCore);
    score(single_sum, multi_sum)
}

/// Scoring reads only the name, category and throughput of a result: two
/// lists that agree on those give the same scores, the same category sums
/// and the same composite, however often they are scored.
pub proof fn lemma_scoring_deterministic(a: Seq<BenchmarkResult>, b: Seq<BenchmarkResult>)
    requires
        a.len() == b.len(),
        forall|i: int|
            0 <= i < a.len() ==> {
                &&& (#[trigger] a[i]).name@ == b[i].name@
                &&& a[i].category == b[i].category
                &&& a[i].ops_per_second_milli == b[i].ops_per_second_milli
            },
    ensures
        forall|i: int|
            0 <= i < a.len() ==> (#[trigger] scores_of(a)[i]).score == scores_of(b)[i].score,
        category_sum(scores_of(a), Category::SingleCore) == category_sum(
            scores_of(b),
            Category::SingleCore,
        ),
        category_sum(scores_of(a), Category::MultiCore) == category_sum(
            scores_of(b),
            Category::MultiCore,
        ),
        cpu_score_of(a) == cpu_score_of(b),
    decreases a.len(),
{
    if a.len() > 0 {
        let a0 = a.drop_last();
        let b0 = b.drop_last();
        assert forall|i: int| 0 <= i < a0.len() implies {
            &&& (#[trigger] a0[i]).name@ == b0[i].name@
            &&& a0[i].category == b0[i].category
            &&& a0[i].ops_per_second_milli == b0[i].ops_per_second_milli
        } by {
            assert(a0[i] == a[i]);
            assert(b0[i] == b[i]);
        }
        lemma_scoring_deterministic(a0, b0);
        assert(scores_of(a).drop_last() =~= scores_of(a0));
        assert(scores_of(b).drop_last() =~= scores_of(b0));
        assert(scores_of(a).last() == score_of(a.last()));
        assert(scores_of(b).last() == score_of(b.last()));
        assert(a.last() == a[a.len() - 1]);
        assert(b.last() == b[b.len() - 1]);
    }
}

/// A ratio over a zero single-core sum is zero, whatever the multi-core sum.
pub proof fn lemma_ratio_zero_single(multi_sum: int)
    ensures
        ratio_of(multi_sum, 0) == 0,
{
}

/// Each category enters the composite with its own weight alone: with the
/// other sum zero, the composite is the sum times its weight times the
/// normalisation factor.
pub proof fn lemma_weighting(single_sum: int, multi_sum: int)
    requires
        single_sum >= 0,
        multi_sum >= 0,
    ensures
        composite_of(single_sum, 0) == single_sum * SINGLE_WEIGHT_PERCENT
            * NORMALIZATION_FACTOR_PERCENT,
        composite_of(0, multi_sum) == multi_sum * MULTI_WEIGHT_PERCENT
            * NORMALIZATION_FACTOR_PERCENT,
{
}

} // verus!

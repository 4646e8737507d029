//! Everything a report of one run shows, computed in one place.

use vstd::prelude::*;
use crate::benchmark::Category;
use crate::rating::{Rating, rate, rating_of};
use crate::scoring::{
    BenchmarkResult,
    BenchmarkScore,
    aggregate,
    category_sum,
    composite_of,
    normalize,
    ratio,
    ratio_of,
    saturate,
    score,
    scores_of,
    weighted_of,
    weighted_score,
};

verus! {

/// The numbers of one scored run.
pub struct ScoreReport {
    /// One score per result, in the order of the results.
    pub scores: Vec<BenchmarkScore>,
    /// Sum of the positive single-core scores, in trillionths of a point.
    pub single_core_sum: u64,
    /// Sum of the positive multi-core scores, in trillionths of a point.
    pub multi_core_sum: u64,
    /// Multi-core sum over single-core sum, in ten-thousandths.
    pub core_ratio: u128,
    /// Weighted sum before normalisation, in composite units.
    pub weighted: u128,
    /// Final composite score, in composite units.
    pub composite: u128,
    /// Band of the composite score.
    pub rating: Rating,
}

/// Scores a run and gathers every number its report shows.
pub fn build_report(results: &Vec<BenchmarkResult>) -> (r: ScoreReport)
    ensures
        r.scores@ == scores_of(results@),
        r.single_core_sum == saturate(category_sum(scores_of(results@), Category::SingleCore)),
        r.multi_core_sum == saturate(category_sum(scores_of(results@), Category::MultiCore)),
        r.core_ratio == ratio_of(r.multi_core_sum as int, r.single_core_sum as int),
        r.weighted == weighted_of(r.single_core_sum as int, r.multi_core_sum as int),
        r.composite == composite_of(r.single_core_sum as int, r.multi_core_sum as int),
        r.rating == rating_of(r.composite as int),
{
    let scores = normalize(results);
    let single_core_sum = aggregate(&scores, Category::SingleCore);
    let multi_core_sum = aggregate(&scores, Category::MultiCore);
    let core_ratio = ratio(multi_core_sum, single_core_sum);
    let weighted = weighted_score(single_core_sum, multi_core_sum);
    let composite = score(single_core_sum, multi_core_sum);
    let rating = rate(composite);
    ScoreReport { scores, single_core_sum, multi_core_sum, core_ratio, weighted, composite, rating }
}

} // verus!

//! The catalogue of the twenty benchmarks: their names, their categories and
//! the coefficients that turn each one's throughput into points.
//!
//! Throughput is counted in thousandths of an operation per second, and a
//! coefficient in billionths of a point per operation per second, so their
//! product is a score in trillionths of a point (see `PICO_PER_POINT`).

use vstd::prelude::*;
use crate::text::{has_substring, str_contains, str_equal};

verus! {

/// Score sub-units in one point: scores are kept in trillionths of a point.
pub const PICO_PER_POINT: i128 = 1_000_000_000_000;

/// Coefficient for an unrecognised single-core benchmark (0.0001 points per
/// operation per second, in billionths).
pub const DEFAULT_SINGLE_COEFFICIENT: u64 = 100_000;

/// Coefficient for an unrecognised multi-core benchmark (0.00005 points per
/// operation per second, in billionths).
pub const DEFAULT_MULTI_COEFFICIENT: u64 = 50_000;

/// The two categories of the suite.
#[derive(Clone, Copy, Debug, PartialEq, Eq, Structural)]
pub enum Category {
    SingleCore,
    MultiCore,
}

/// One of the twenty benchmarks: ten workloads, each in a single-core and a
/// multi-core variant.
#[derive(Clone, Copy, Debug, PartialEq, Eq, Structural)]
pub enum Benchmark {
    SinglePrimeGeneration,
    SingleFibonacciRecursive,
    SingleMatrixMultiplication,
    SingleHashComputing,
    SingleStringSorting,
    SingleRayTracing,
    SingleCompression,
    SingleMonteCarloPi,
    SingleJsonParsing,
    SingleNQueens,
    MultiPrimeGeneration,
    MultiFibonacciMemoized,
    MultiMatrixMultiplication,
    MultiHashComputing,
    MultiStringSorting,
    MultiRayTracing,
    MultiCompression,
    MultiMonteCarloPi,
    MultiJsonParsing,
    MultiNQueens,
}

/// The text that marks a benchmark name as multi-core.
pub open spec fn multi_core_marker() -> Seq<char> {
    "Multi-Core"@
}

impl Benchmark {
    /// The canonical name of the benchmark.
    pub open spec fn spec_name(self) -> Seq<char> {
        match self {
            Benchmark::SinglePrimeGeneration => "Single-Core Prime Generation"@,
            Benchmark::SingleFibonacciRecursive => "Single-Core Fibonacci Recursive"@,
            Benchmark::SingleMatrixMultiplication => "Single-Core Matrix Multiplication"@,
            Benchmark::SingleHashComputing => "Single-Core Hash Computing"@,
            Benchmark::SingleStringSorting => "Single-Core String Sorting"@,
            Benchmark::SingleRayTracing => "Single-Core Ray Tracing"@,
            Benchmark::SingleCompression => "Single-Core Compression"@,
            Benchmark::SingleMonteCarloPi => "Single-Core Monte Carlo π"@,
            Benchmark::SingleJsonParsing => "Single-Core JSON Parsing"@,
            Benchmark::SingleNQueens => "Single-Core N-Queens"@,
            Benchmark::MultiPrimeGeneration => "Multi-Core Prime Generation"@,
            Benchmark::MultiFibonacciMemoized => "Multi-Core Fibonacci Memoized"@,
            Benchmark::MultiMatrixMultiplication => "Multi-Core Matrix Multiplication"@,
            Benchmark::MultiHashComputing => "Multi-Core Hash Computing"@,
            Benchmark::MultiStringSorting => "Multi-Core String Sorting"@,
            Benchmark::MultiRayTracing => "Multi-Core Ray Tracing"@,
            Benchmark::MultiCompression => "Multi-Core Compression"@,
            Benchmark::MultiMonteCarloPi => "Multi-Core Monte Carlo π"@,
            Benchmark::MultiJsonParsing => "Multi-Core JSON Parsing"@,
            Benchmark::MultiNQueens => "Multi-Core N-Queens"@,
        }
    }

    /// The benchmark's coefficient, in billionths of a point per operation
    /// per second.
    pub open spec fn spec_coefficient(self) -> u64 {
        match self {
            Benchmark::SinglePrimeGeneration => 10,
            Benchmark::SingleFibonacciRecursive => 120_000,
            Benchmark::SingleMatrixMultiplication => 25,
            Benchmark::SingleHashComputing => 10,
            Benchmark::SingleStringSorting => 150,
            Benchmark::SingleRayTracing => 600,
            Benchmark::SingleCompression => 70,
            Benchmark::SingleMonteCarloPi => 700,
            Benchmark::SingleJsonParsing => 400,
            Benchmark::SingleNQueens => 700_000,
            Benchmark::MultiPrimeGeneration => 200,
            Benchmark::MultiFibonacciMemoized => 2_400_000,
            Benchmark::MultiMatrixMultiplication => 100,
            Benchmark::MultiHashComputing => 200,
            Benchmark::MultiStringSorting => 300,
            Benchmark::MultiRayTracing => 3_000,
            Benchmark::MultiCompression => 35,
            Benchmark::MultiMonteCarloPi => 3_500,
            Benchmark::MultiJsonParsing => 2_000,
            Benchmark::MultiNQueens => 35_000,
        }
    }

    pub open spec fn spec_category(self) -> Category {
        match self {
            Benchmark::SinglePrimeGeneration
            | Benchmark::SingleFibonacciRecursive
            | Benchmark::SingleMatrixMultiplication
            | Benchmark::SingleHashComputing
            | Benchmark::SingleStringSorting
            | Benchmark::SingleRayTracing
            | Benchmark::SingleCompression
            | Benchmark::SingleMonteCarloPi
            | Benchmark::SingleJsonParsing
            | Benchmark::SingleNQueens => Category::SingleCore,
            _ => Category::MultiCore,
        }
    }

    /// The canonical name of the benchmark.
    pub fn name(&self) -> (r: &'static str)
        ensures
            r@ == self.spec_name(),
    {
        match self {
            Benchmark::SinglePrimeGeneration => "Single-Core Prime Generation",
            Benchmark::SingleFibonacciRecursive => "Single-Core Fibonacci Recursive",
            Benchmark::SingleMatrixMultiplication => "Single-Core Matrix Multiplication",
            Benchmark::SingleHashComputing => "Single-Core Hash Computing",
            Benchmark::SingleStringSorting => "Single-Core String Sorting",
            Benchmark::SingleRayTracing => "Single-Core Ray Tracing",
            Benchmark::SingleCompression => "Single-Core Compression",
            Benchmark::SingleMonteCarloPi => "Single-Core Monte Carlo π",
            Benchmark::SingleJsonParsing => "Single-Core JSON Parsing",
            Benchmark::SingleNQueens => "Single-Core N-Queens",
            Benchmark::MultiPrimeGeneration => "Multi-Core Prime Generation",
            Benchmark::MultiFibonacciMemoized => "Multi-Core Fibonacci Memoized",
            Benchmark::MultiMatrixMultiplication => "Multi-Core Matrix Multiplication",
            Benchmark::MultiHashComputing => "Multi-Core Hash Computing",
            Benchmark::MultiStringSorting => "Multi-Core String Sorting",
            Benchmark::MultiRayTracing => "Multi-Core Ray Tracing",
            Benchmark::MultiCompression => "Multi-Core Compression",
            Benchmark::MultiMonteCarloPi => "Multi-Core Monte Carlo π",
            Benchmark::MultiJsonParsing => "Multi-Core JSON Parsing",
            Benchmark::MultiNQueens => "Multi-Core N-Queens",
        }
    }

    /// The benchmark's coefficient, in billionths of a point per operation
    /// per second.
    pub fn coefficient(&self) -> (r: u64)
        ensures
            r == self.spec_coefficient(),
    {
        match self {
            Benchmark::SinglePrimeGeneration => 10,
            Benchmark::SingleFibonacciRecursive => 120_000,
            Benchmark::SingleMatrixMultiplication => 25,
            Benchmark::SingleHashComputing => 10,
            Benchmark::SingleStringSorting => 150,
            Benchmark::SingleRayTracing => 600,
            Benchmark::SingleCompression => 70,
            Benchmark::SingleMonteCarloPi => 700,
            Benchmark::SingleJsonParsing => 400,
            Benchmark::SingleNQueens => 700_000,
            Benchmark::MultiPrimeGeneration => 200,
            Benchmark::MultiFibonacciMemoized => 2_400_000,
            Benchmark::MultiMatrixMultiplication => 100,
            Benchmark::MultiHashComputing => 200,
            Benchmark::MultiStringSorting => 300,
            Benchmark::MultiRayTracing => 3_000,
            Benchmark::MultiCompression => 35,
            Benchmark::MultiMonteCarloPi => 3_500,
            Benchmark::MultiJsonParsing => 2_000,
            Benchmark::MultiNQueens => 35_000,
        }
    }

    /// The category the benchmark belongs to.
    pub fn category(&self) -> (r: Category)
        ensures
            r == self.spec_category(),
    {
        match self {
            Benchmark::SinglePrimeGeneration
            | Benchmark::SingleFibonacciRecursive
            | Benchmark::SingleMatrixMultiplication
            | Benchmark::SingleHashComputing
            | Benchmark::SingleStringSorting
            | Benchmark::SingleRayTracing
            | Benchmark::SingleCompression
            | Benchmark::SingleMonteCarloPi
            | Benchmark::SingleJsonParsing
            | Benchmark::SingleNQueens => Category::SingleCore,
            _ => Category::MultiCore,
        }
    }

    /// All twenty benchmarks, single-core first, each category in the order
    /// in which the suite runs it.
    pub fn all() -> (r: Vec<Benchmark>)
        ensures
            r@ == seq![
                Benchmark::SinglePrimeGeneration,
                Benchmark::SingleFibonacciRecursive,
                Benchmark::SingleMatrixMultiplication,
                Benchmark::SingleHashComputing,
                Benchmark::SingleStringSorting,
                Benchmark::SingleRayTracing,
                Benchmark::SingleCompression,
                Benchmark::SingleMonteCarloPi,
                Benchmark::SingleJsonParsing,
                Benchmark::SingleNQueens,
                Benchmark::MultiPrimeGeneration,
                Benchmark::MultiFibonacciMemoized,
                Benchmark::MultiMatrixMultiplication,
                Benchmark::MultiHashComputing,
                Benchmark::MultiStringSorting,
                Benchmark::MultiRayTracing,
                Benchmark::MultiCompression,
                Benchmark::MultiMonteCarloPi,
                Benchmark::MultiJsonParsing,
                Benchmark::MultiNQueens,
            ],
            forall|b: Benchmark| r@.contains(b),
    {
        let r = vec![
            Benchmark::SinglePrimeGeneration,
            Benchmark::SingleFibonacciRecursive,
            Benchmark::SingleMatrixMultiplication,
            Benchmark::SingleHashComputing,
            Benchmark::SingleStringSorting,
            Benchmark::SingleRayTracing,
            Benchmark::SingleCompression,
            Benchmark::SingleMonteCarloPi,
            Benchmark::SingleJsonParsing,
            Benchmark::SingleNQueens,
            Benchmark::MultiPrimeGeneration,
            Benchmark::MultiFibonacciMemoized,
            Benchmark::MultiMatrixMultiplication,
            Benchmark::MultiHashComputing,
            Benchmark::MultiStringSorting,
            Benchmark::MultiRayTracing,
            Benchmark::MultiCompression,
            Benchmark::MultiMonteCarloPi,
            Benchmark::MultiJsonParsing,
            Benchmark::MultiNQueens,
        ];
        assert forall|b: Benchmark| r@.contains(b) by {
            let i: int = match b {
                Benchmark::SinglePrimeGeneration => 0,
                Benchmark::SingleFibonacciRecursive => 1,
                Benchmark::SingleMatrixMultiplication => 2,
                Benchmark::SingleHashComputing => 3,
                Benchmark::SingleStringSorting => 4,
                Benchmark::SingleRayTracing => 5,
                Benchmark::SingleCompression => 6,
                Benchmark::SingleMonteCarloPi => 7,
                Benchmark::SingleJsonParsing => 8,
                Benchmark::SingleNQueens => 9,
                Benchmark::MultiPrimeGeneration => 10,
                Benchmark::MultiFibonacciMemoized => 11,
                Benchmark::MultiMatrixMultiplication => 12,
                Benchmark::MultiHashComputing => 13,
                Benchmark::MultiStringSorting => 14,
                Benchmark::MultiRayTracing => 15,
                Benchmark::MultiCompression => 16,
                Benchmark::MultiMonteCarloPi => 17,
                Benchmark::MultiJsonParsing => 18,
                Benchmark::MultiNQueens => 19,
            };
            assert(r@[i] == b);
        }
        r
    }
}

/// Distinct benchmarks have distinct names.
pub proof fn lemma_name_injective(a: Benchmark, b: Benchmark)
    requires
        a.spec_name() == b.spec_name(),
    ensures
        a == b,
{
    reveal_strlit("Single-Core Prime Generation");
    reveal_strlit("Single-Core Fibonacci Recursive");
    reveal_strlit("Single-Core Matrix Multiplication");
    reveal_strlit("Single-Core Hash Computing");
    reveal_strlit("Single-Core String Sorting");
    reveal_strlit("Single-Core Ray Tracing");
    reveal_strlit("Single-Core Compression");
    reveal_strlit("Single-Core Monte Carlo π");
    reveal_strlit("Single-Core JSON Parsing");
    reveal_strlit("Single-Core N-Queens");
    reveal_strlit("Multi-Core Prime Generation");
    reveal_strlit("Multi-Core Fibonacci Memoized");
    reveal_strlit("Multi-Core Matrix Multiplication");
    reveal_strlit("Multi-Core Hash Computing");
    reveal_strlit("Multi-Core String Sorting");
    reveal_strlit("Multi-Core Ray Tracing");
    reveal_strlit("Multi-Core Compression");
    reveal_strlit("Multi-Core Monte Carlo π");
    reveal_strlit("Multi-Core JSON Parsing");
    reveal_strlit("Multi-Core N-Queens");
    let s = a.spec_name();
    let t = b.spec_name();
    assert(s.len() == t.len());
    assert(s[0] == t[0]);
    assert(s[11] == t[11]);
    assert(s[12] == t[12]);
}

/// The benchmark whose canonical name is `s`, if there is one.
pub open spec fn benchmark_of_name(s: Seq<char>) -> Option<Benchmark> {
    if exists|b: Benchmark| b.spec_name() == s {
        Some(choose|b: Benchmark| b.spec_name() == s)
    } else {
        None
    }
}

/// The coefficient that applies to a result named `s`: the benchmark's own
/// where `s` is a canonical name, else the multi-core default where `s`
/// contains the multi-core marker, else the single-core default.
pub open spec fn coefficient_of(s: Seq<char>) -> u64 {
    match benchmark_of_name(s) {
        Some(b) => b.spec_coefficient(),
        None => if has_substring(s, multi_core_marker()) {
            DEFAULT_MULTI_COEFFICIENT
        } else {
            DEFAULT_SINGLE_COEFFICIENT
        },
    }
}

impl Benchmark {
    /// The benchmark with the given canonical name, if any.
    pub fn from_name(name: &str) -> (r: Option<Benchmark>)
        ensures
            r == benchmark_of_name(name@),
    {
        let all = Benchmark::all();
        let mut i: usize = 0;
        while i < all.len()
            invariant
                all@.len() == 20,
                forall|b: Benchmark| all@.contains(b),
                i <= all@.len(),
                forall|j: int| 0 <= j < i ==> all@[j].spec_name() != name@,
            decreases all@.len() - i,
        {
            let b = all[i];
            if str_equal(name, b.name()) {
                proof {
                    let c = choose|c: Benchmark| c.spec_name() == name@;
                    lemma_name_injective(b, c);
                }
                return Some(b);
            }
            i += 1;
        }
        assert forall|b: Benchmark| b.spec_name() != name@ by {
            assert(all@.contains(b));
        }
        None
    }
}

/// The coefficient for a result of the given name, in billionths of a point
/// per operation per second. Every name has one: an unrecognised name falls
/// back to the default of the category that its text names.
pub fn coefficient(name: &str) -> (r: u64)
    ensures
        r == coefficient_of(name@),
{
    match Benchmark::from_name(name) {
        Some(b) => b.coefficient(),
        None => if str_contains(name, "Multi-Core") {
            DEFAULT_MULTI_COEFFICIENT
        } else {
            DEFAULT_SINGLE_COEFFICIENT
        },
    }
}

/// Every canonical name gets its own coefficient from the table, never a
/// default.
pub proof fn lemma_coefficient_coverage(b: Benchmark)
    ensures
        benchmark_of_name(b.spec_name()) == Some(b),
        coefficient_of(b.spec_name()) == b.spec_coefficient(),
{
    let c = choose|c: Benchmark| c.spec_name() == b.spec_name();
    lemma_name_injective(b, c);
}

} // verus!

//! Scoring and aggregation engine of a CPU micro-benchmark suite, with the
//! plain data that surrounds it (device tiers and their workload sizes, the
//! run configuration, the bookkeeping of "big" CPU cores) and the integer
//! kernels of several workloads: the prime sieve, Fibonacci numbers,
//! run-length compression, N-Queens counting and SHA-256/MD5 digests.
//!
//! Measurements arrive as integers (throughput in thousandths of an
//! operation per second), and every score is an exact integer in a fixed
//! sub-unit of a point, so the whole pipeline is deterministic and its
//! contracts speak of exact arithmetic.

pub mod affinity;
pub mod benchmark;
pub mod compression;
pub mod fibonacci;
pub mod hashing;
pub mod jsongen;
pub mod jsontree;
pub mod nqueens;
pub mod primes;
pub mod rating;
pub mod report;
pub mod scoring;
pub mod text;
pub mod types;
pub mod utils;

pub use affinity::{BigCoreRegistry, select_big_cores, select_little_cores};
pub use benchmark::{Benchmark, Category, coefficient};
pub use primes::is_prime;
pub use rating::{Rating, rate};
pub use report::{ScoreReport, build_report};
pub use scoring::{
    BenchmarkResult,
    BenchmarkScore,
    aggregate,
    calculate_cpu_score,
    normalize,
    ratio,
    score,
    weighted_score,
};
pub use types::{BenchmarkConfig, CDeviceTier, DeviceTier, WorkloadParams};
pub use utils::{average_nanos, get_workload_params, validate_config};

//! Device tiers, the workload sizes of each tier, and the run configuration.

use vstd::prelude::*;
use crate::text::str_equal;

verus! {

/// How capable the device under test is; it decides the workload sizes.
#[derive(Clone, Copy, Debug, PartialEq, Eq, Structural)]
pub enum DeviceTier {
    Slow,
    Mid,
    Flagship,
}

/// The device tier as exchanged with C callers, numbered 0, 1 and 2.
#[derive(Clone, Copy, Debug, PartialEq, Eq, Structural)]
pub enum CDeviceTier {
    Slow,
    Mid,
    Flagship,
}

impl CDeviceTier {
    pub open spec fn spec_to_device_tier(self) -> DeviceTier {
        match self {
            CDeviceTier::Slow => DeviceTier::Slow,
            CDeviceTier::Mid => DeviceTier::Mid,
            CDeviceTier::Flagship => DeviceTier::Flagship,
        }
    }

    /// The tier of the same name.
    pub fn to_device_tier(&self) -> (r: DeviceTier)
        ensures
            r == self.spec_to_device_tier(),
    {
        match self {
            CDeviceTier::Slow => DeviceTier::Slow,
            CDeviceTier::Mid => DeviceTier::Mid,
            CDeviceTier::Flagship => DeviceTier::Flagship,
        }
    }
}

/// Sizes of the workloads of one suite run.
#[derive(Clone, Copy, Debug)]
pub struct WorkloadParams {
    /// Upper end of the range that the prime sieve covers.
    pub prime_range: usize,
    /// First and last Fibonacci index computed.
    pub fibonacci_n_range: (u32, u32),
    /// Side of the square matrices multiplied.
    pub matrix_size: usize,
    /// Megabytes hashed.
    pub hash_data_size_mb: usize,
    /// Number of strings sorted.
    pub string_count: usize,
    /// Width and height of the traced image.
    pub ray_tracing_resolution: (usize, usize),
    /// Reflection depth of the ray tracer.
    pub ray_tracing_depth: u32,
    /// Megabytes compressed.
    pub compression_data_size_mb: usize,
    /// Random samples of the Monte Carlo estimate.
    pub monte_carlo_samples: usize,
    /// Megabytes of JSON generated and parsed.
    pub json_data_size_mb: usize,
    /// Board size of the N-Queens search.
    pub nqueens_size: u32,
}

/// How a suite run is configured.
#[derive(Clone, Copy, Debug, PartialEq, Eq, Structural)]
pub struct BenchmarkConfig {
    /// Runs of each benchmark; zero stands for the default.
    pub iterations: usize,
    /// Whether warm-up runs come first.
    pub warmup: bool,
    /// Number of warm-up runs; zero stands for the default.
    pub warmup_count: usize,
    pub device_tier: DeviceTier,
}

/// Iterations and warm-up runs that a configuration of zero stands for.
pub const DEFAULT_ITERATIONS: usize = 3;

/// The tier that a command-line argument names, after lower-casing: exactly
/// `slow`, `mid` or `flagship`.
pub open spec fn cli_tier_of(lower: Seq<char>) -> Option<DeviceTier> {
    if lower == "slow"@ {
        Some(DeviceTier::Slow)
    } else if lower == "mid"@ {
        Some(DeviceTier::Mid)
    } else if lower == "flagship"@ {
        Some(DeviceTier::Flagship)
    } else {
        None
    }
}

/// The tier that a configuration names, after lower-casing, with its
/// aliases; any other text stands for the mid tier.
pub open spec fn config_tier_of(lower: Seq<char>) -> DeviceTier {
    if lower == "slow"@ {
        DeviceTier::Slow
    } else if lower == "flagship"@ || lower == "high"@ || lower == "fast"@ {
        DeviceTier::Flagship
    } else {
        DeviceTier::Mid
    }
}

/// The result of lower-casing a string, character by character.
pub uninterp spec fn lowercase_of(s: Seq<char>) -> Seq<char>;

/// Relies on `str::to_lowercase`: the result depends on the characters of
/// `s` alone.
#[verifier::external_body]
fn to_lowercase(s: &str) -> (r: String)
    ensures
        r@ == lowercase_of(s@),
{
    s.to_lowercase()
}

impl DeviceTier {
    /// The tier named by already lower-cased command-line text, if any.
    pub fn from_cli_name(lower: &str) -> (r: Option<DeviceTier>)
        ensures
            r == cli_tier_of(lower@),
    {
        if str_equal(lower, "slow") {
            Some(DeviceTier::Slow)
        } else if str_equal(lower, "mid") {
            Some(DeviceTier::Mid)
        } else if str_equal(lower, "flagship") {
            Some(DeviceTier::Flagship)
        } else {
            None
        }
    }

    /// The tier named by a command-line argument, in any letter case.
    pub fn parse_cli_arg(arg: &str) -> (r: Option<DeviceTier>)
        ensures
            r == cli_tier_of(lowercase_of(arg@)),
    {
        let lower = to_lowercase(arg);
        DeviceTier::from_cli_name(lower.as_str())
    }

    /// The tier named by already lower-cased configuration text; unknown
    /// text gives the mid tier.
    pub fn from_config_name(lower: &str) -> (r: DeviceTier)
        ensures
            r == config_tier_of(lower@),
    {
        if str_equal(lower, "slow") {
            DeviceTier::Slow
        } else if str_equal(lower, "flagship") || str_equal(lower, "high") || str_equal(
            lower,
            "fast",
        ) {
            DeviceTier::Flagship
        } else {
            DeviceTier::Mid
        }
    }

    /// The tier named by configuration text, in any letter case.
    pub fn parse_config_name(name: &str) -> (r: DeviceTier)
        ensures
            r == config_tier_of(lowercase_of(name@)),
    {
        let lower = to_lowercase(name);
        DeviceTier::from_config_name(lower.as_str())
    }
}

} // verus!

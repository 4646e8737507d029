//! The workload table, configuration defaults and timing arithmetic.

use vstd::prelude::*;
use crate::types::{BenchmarkConfig, DEFAULT_ITERATIONS, DeviceTier, WorkloadParams};

verus! {

/// `x`, or `u64::MAX` where `x` exceeds it.
pub open spec fn cap(x: nat) -> u64 {
    if x > u64::MAX {
        u64::MAX
    } else {
        x as u64
    }
}

/// The workload sizes of each device tier.
pub open spec fn workload_params_of(tier: DeviceTier) -> WorkloadParams {
    match tier {
        DeviceTier::Slow => WorkloadParams {
            prime_range: 1_000_000,
            fibonacci_n_range: (30, 38),
            matrix_size: 500,
            hash_data_size_mb: 25,
            string_count: 250_000,
            ray_tracing_resolution: (256, 256),
            ray_tracing_depth: 2,
            compression_data_size_mb: 25,
            monte_carlo_samples: 25_000_000,
            json_data_size_mb: 2,
            nqueens_size: 12,
        },
        DeviceTier::Mid => WorkloadParams {
            prime_range: 8_000_000,
            fibonacci_n_range: (32, 38),
            matrix_size: 700,
            hash_data_size_mb: 50,
            string_count: 700_000,
            ray_tracing_resolution: (350, 350),
            ray_tracing_depth: 3,
            compression_data_size_mb: 30,
            monte_carlo_samples: 60_000_000,
            json_data_size_mb: 5,
            nqueens_size: 13,
        },
        DeviceTier::Flagship => WorkloadParams {
            prime_range: 20_000_000,
            fibonacci_n_range: (35, 42),
            matrix_size: 1200,
            hash_data_size_mb: 150,
            string_count: 2_000_000,
            ray_tracing_resolution: (600, 600),
            ray_tracing_depth: 5,
            compression_data_size_mb: 80,
            monte_carlo_samples: 150_000_000,
            json_data_size_mb: 15,
            nqueens_size: 16,
        },
    }
}

/// The workload sizes for a device tier.
pub fn get_workload_params(tier: &DeviceTier) -> (r: WorkloadParams)
    ensures
        r == workload_params_of(*tier),
{
    match tier {
        DeviceTier::Slow => WorkloadParams {
            prime_range: 1_000_000,
            fibonacci_n_range: (30, 38),
            matrix_size: 500,
            hash_data_size_mb: 25,
            string_count: 250_000,
            ray_tracing_resolution: (256, 256),
            ray_tracing_depth: 2,
            compression_data_size_mb: 25,
            monte_carlo_samples: 25_000_000,
            json_data_size_mb: 2,
            nqueens_size: 12,
        },
        DeviceTier::Mid => WorkloadParams {
            prime_range: 8_000_000,
            fibonacci_n_range: (32, 38),
            matrix_size: 700,
            hash_data_size_mb: 50,
            string_count: 700_000,
            ray_tracing_resolution: (350, 350),
            ray_tracing_depth: 3,
            compression_data_size_mb: 30,
            monte_carlo_samples: 60_000_000,
            json_data_size_mb: 5,
            nqueens_size: 13,
        },
        DeviceTier::Flagship => WorkloadParams {
            prime_range: 20_000_000,
            fibonacci_n_range: (35, 42),
            matrix_size: 1200,
            hash_data_size_mb: 150,
            string_count: 2_000_000,
            ray_tracing_resolution: (600, 600),
            ray_tracing_depth: 5,
            compression_data_size_mb: 80,
            monte_carlo_samples: 150_000_000,
            json_data_size_mb: 15,
            nqueens_size: 16,
        },
    }
}

/// Replaces a zero iteration count and a zero warm-up count by the default;
/// everything else stays as it was.
pub fn validate_config(config: &mut BenchmarkConfig)
    ensures
        final(config).iterations == if old(config).iterations == 0 {
            DEFAULT_ITERATIONS
        } else {
            old(config).iterations
        },
        final(config).warmup_count == if old(config).warmup_count == 0 {
            DEFAULT_ITERATIONS
        } else {
            old(config).warmup_count
        },
        final(config).warmup == old(config).warmup,
        final(config).device_tier == old(config).device_tier,
{
    if config.iterations == 0 {
        config.iterations = DEFAULT_ITERATIONS;
    }
    if config.warmup_count == 0 {
        config.warmup_count = DEFAULT_ITERATIONS;
    }
}

/// The mean time of `iterations` runs that took `total_nanos` together,
/// rounded down. The total is first cut to its low 64 bits, as a `u64`
/// conversion does.
pub fn average_nanos(total_nanos: u128, iterations: usize) -> (r: u64)
    requires
        iterations > 0,
    ensures
        r == (total_nanos as int % 0x1_0000_0000_0000_0000) / (iterations as int),
{
    let total = total_nanos as u64;
    assert(total == total_nanos as int % 0x1_0000_0000_0000_0000) by (bit_vector)
        requires
            total == total_nanos as u64,
    ;
    total / (iterations as u64)
}

} // verus!

use cpu_benchmark::types::DEFAULT_ITERATIONS;
use cpu_benchmark::{
    average_nanos, get_workload_params, is_prime, select_big_cores, select_little_cores,
    validate_config, BenchmarkConfig, BigCoreRegistry, CDeviceTier, DeviceTier,
};

#[test]
fn primes_small_numbers() {
    let primes: Vec<u64> = (0..60u64).filter(|n| is_prime(*n)).collect();
    assert_eq!(primes, vec![2, 3, 5, 7, 11, 13, 17, 19, 23, 29, 31, 37, 41, 43, 47, 53, 59]);
}

#[test]
fn primes_squares_and_large_values() {
    assert!(!is_prime(25));
    assert!(!is_prime(49));
    assert!(!is_prime(121));
    assert!(!is_prime(7919 * 7919));
    assert!(is_prime(7919));
    assert!(is_prime(1_000_000_007));
    assert!(is_prime(4_294_967_291));
    assert!(!is_prime(4_294_967_291 * 3));
    assert!(is_prime(18_446_744_073_709_551_557));
    assert!(!is_prime(u64::MAX));
}

#[test]
fn workload_params_per_tier() {
    let slow = get_workload_params(&DeviceTier::Slow);
    assert_eq!(slow.prime_range, 1_000_000);
    assert_eq!(slow.fibonacci_n_range, (30, 38));
    assert_eq!(slow.nqueens_size, 12);
    let mid = get_workload_params(&DeviceTier::Mid);
    assert_eq!(mid.prime_range, 8_000_000);
    assert_eq!(mid.matrix_size, 700);
    assert_eq!(mid.ray_tracing_resolution, (350, 350));
    assert_eq!(mid.monte_carlo_samples, 60_000_000);
    let flagship = get_workload_params(&DeviceTier::Flagship);
    assert_eq!(flagship.prime_range, 20_000_000);
    assert_eq!(flagship.hash_data_size_mb, 150);
    assert_eq!(flagship.string_count, 2_000_000);
    assert_eq!(flagship.ray_tracing_depth, 5);
    assert_eq!(flagship.compression_data_size_mb, 80);
    assert_eq!(flagship.json_data_size_mb, 15);
    assert_eq!(flagship.nqueens_size, 16);
}

#[test]
fn validate_config_fills_zero_counts() {
    let mut config = BenchmarkConfig {
        iterations: 0,
        warmup: false,
        warmup_count: 0,
        device_tier: DeviceTier::Slow,
    };
    validate_config(&mut config);
    assert_eq!(config.iterations, DEFAULT_ITERATIONS);
    assert_eq!(config.warmup_count, 3);
    assert!(!config.warmup);
    assert_eq!(config.device_tier, DeviceTier::Slow);

    let mut kept = BenchmarkConfig {
        iterations: 7,
        warmup: true,
        warmup_count: 1,
        device_tier: DeviceTier::Flagship,
    };
    validate_config(&mut kept);
    assert_eq!(kept.iterations, 7);
    assert_eq!(kept.warmup_count, 1);
}

#[test]
fn tier_names_from_command_line() {
    assert_eq!(DeviceTier::parse_cli_arg("slow"), Some(DeviceTier::Slow));
    assert_eq!(DeviceTier::parse_cli_arg("MID"), Some(DeviceTier::Mid));
    assert_eq!(DeviceTier::parse_cli_arg("FlagShip"), Some(DeviceTier::Flagship));
    assert_eq!(DeviceTier::parse_cli_arg("high"), None);
    assert_eq!(DeviceTier::parse_cli_arg(""), None);
    assert_eq!(DeviceTier::from_cli_name("SLOW"), None);
}

#[test]
fn tier_names_from_configuration() {
    assert_eq!(DeviceTier::parse_config_name("Slow"), DeviceTier::Slow);
    assert_eq!(DeviceTier::parse_config_name("MEDIUM"), DeviceTier::Mid);
    assert_eq!(DeviceTier::parse_config_name("High"), DeviceTier::Flagship);
    assert_eq!(DeviceTier::parse_config_name("FAST"), DeviceTier::Flagship);
    assert_eq!(DeviceTier::parse_config_name("flagship"), DeviceTier::Flagship);
    assert_eq!(DeviceTier::parse_config_name("turbo"), DeviceTier::Mid);
    assert_eq!(DeviceTier::from_config_name("fast"), DeviceTier::Flagship);
}

#[test]
fn c_tier_converts() {
    assert_eq!(CDeviceTier::Slow.to_device_tier(), DeviceTier::Slow);
    assert_eq!(CDeviceTier::Mid.to_device_tier(), DeviceTier::Mid);
    assert_eq!(CDeviceTier::Flagship.to_device_tier(), DeviceTier::Flagship);
    assert_eq!(CDeviceTier::Flagship as i32, 2);
}

#[test]
fn average_of_runs() {
    assert_eq!(average_nanos(3_000, 3), 1_000);
    assert_eq!(average_nanos(10, 3), 3);
    assert_eq!(average_nanos((1u128 << 64) + 9, 3), 3);
}

#[test]
fn big_and_little_cores_from_frequencies() {
    let freqs = vec![Some(1_800_000), None, Some(2_000_000), Some(2_400_000), Some(3_000_000), None];
    assert_eq!(select_big_cores(&freqs), vec![3, 4]);
    assert_eq!(select_little_cores(&freqs), vec![0, 2]);
    assert!(select_big_cores(&Vec::new()).is_empty());
}

#[test]
fn registry_prefers_recorded_cores() {
    let mut registry = BigCoreRegistry::new();
    assert_eq!(registry.get_big_cores(|| vec![9]), vec![9]);
    registry.set_big_cores(vec![4, 5, 6, 7]);
    assert_eq!(registry.get_big_cores(|| vec![9]), vec![4, 5, 6, 7]);
    registry.set_big_cores(vec![]);
    assert_eq!(registry.get_big_cores(|| vec![9]), Vec::<usize>::new());
}

use cpu_benchmark::compression::{compress_rle, concat_chunks, decompress_rle};
use cpu_benchmark::fibonacci::{fibonacci, fibonacci_range};
use cpu_benchmark::hashing::{combine_chunk_digests, hash_digests};
use cpu_benchmark::nqueens::{count_nqueens_solutions, count_nqueens_with_first};
use cpu_benchmark::primes::{count_primes, prime_segments, segment_flags, sieve};

fn hex(bytes: &[u8]) -> String {
    bytes.iter().map(|b| format!("{:02x}", b)).collect()
}

#[test]
fn rle_encodes_runs() {
    assert_eq!(compress_rle(&[7, 7, 7, 1, 2, 2]), vec![3, 7, 1, 1, 2, 2]);
    assert!(compress_rle(&[]).is_empty());
}

#[test]
fn rle_caps_runs_at_255() {
    let data = vec![9u8; 600];
    assert_eq!(compress_rle(&data), vec![255, 9, 255, 9, 90, 9]);
    assert_eq!(decompress_rle(&compress_rle(&data)), data);
}

#[test]
fn rle_round_trip_on_mixed_data() {
    let data: Vec<u8> = (0..2000u32).map(|i| ((i / 7) % 5) as u8).collect();
    let compressed = compress_rle(&data);
    assert_eq!(compressed.len() % 2, 0);
    assert_eq!(decompress_rle(&compressed), data);
}

#[test]
fn rle_decode_ignores_trailing_byte() {
    assert_eq!(decompress_rle(&[2, 5, 1, 6, 9]), vec![5, 5, 6]);
    assert_eq!(decompress_rle(&[0, 5]), Vec::<u8>::new());
    assert_eq!(decompress_rle(&[4]), Vec::<u8>::new());
}

#[test]
fn rle_chunked_round_trip() {
    let data: Vec<u8> = (0..1000u32).map(|i| (i % 3 == 0) as u8).collect();
    let chunks: Vec<Vec<u8>> = data.chunks(333).map(compress_rle).collect();
    let joined = concat_chunks(&chunks);
    assert_eq!(decompress_rle(&joined), data);
}

#[test]
fn fibonacci_values() {
    assert_eq!(fibonacci(0), Some(0));
    assert_eq!(fibonacci(1), Some(1));
    assert_eq!(fibonacci(10), Some(55));
    assert_eq!(fibonacci(30), Some(832_040));
}

#[test]
fn fibonacci_range_in_order() {
    assert_eq!(fibonacci_range(5, 9), Some(vec![5, 8, 13, 21, 34]));
    assert_eq!(fibonacci_range(9, 5), Some(vec![]));
    assert_eq!(fibonacci_range(3, 3), Some(vec![2]));
}

#[test]
fn sieve_marks_primes() {
    let flags = sieve(30);
    let primes: Vec<usize> = (0..=30).filter(|&k| flags[k]).collect();
    assert_eq!(primes, vec![2, 3, 5, 7, 11, 13, 17, 19, 23, 29]);
    assert_eq!(sieve(0), vec![false]);
    assert_eq!(sieve(1), vec![false, false]);
}

#[test]
fn prime_counts() {
    assert_eq!(count_primes(0), 0);
    assert_eq!(count_primes(2), 1);
    assert_eq!(count_primes(100), 25);
    assert_eq!(count_primes(1_000_000), 78_498);
}

#[test]
fn segments_cover_the_range() {
    let segs = prime_segments(10, 3);
    assert_eq!(segs, vec![(0, 3), (3, 6), (6, 10)]);
    assert_eq!(prime_segments(2, 4), vec![(0, 0), (0, 0), (0, 0), (0, 2)]);
}

#[test]
fn segment_flags_clear_zero_and_one() {
    assert_eq!(segment_flags(0, 4), vec![false, false, true, true]);
    assert_eq!(segment_flags(1, 3), vec![false, true]);
    assert_eq!(segment_flags(5, 7), vec![true, true]);
    assert_eq!(segment_flags(0, 1), vec![true]);
}

#[test]
fn digests_of_known_input() {
    let d = hash_digests(b"abc");
    assert_eq!(hex(&d.sha256), "ba7816bf8f01cfea414140de5dae2223b00361a396177a9cb410ff61f20015ad");
    assert_eq!(hex(&d.md5), "900150983cd24fb0d6963f7d28e17f72");
    let empty = hash_digests(b"");
    assert_eq!(hex(&empty.md5), "d41d8cd98f00b204e9800998ecf8427e");
}

#[test]
fn chunk_digests_combine_in_order() {
    let a = hash_digests(b"ab");
    let b = hash_digests(b"c");
    let mut joined_sha = a.sha256.clone();
    joined_sha.extend_from_slice(&b.sha256);
    let mut joined_md5 = a.md5.clone();
    joined_md5.extend_from_slice(&b.md5);
    let combined = combine_chunk_digests(&vec![a, b]);
    assert_eq!(combined.sha256, hash_digests(&joined_sha).sha256);
    assert_eq!(combined.md5, hash_digests(&joined_md5).md5);
    assert_ne!(combined.sha256, hash_digests(b"abc").sha256);
}

#[test]
fn nqueens_known_counts() {
    assert_eq!(count_nqueens_solutions(1), 1);
    assert_eq!(count_nqueens_solutions(2), 0);
    assert_eq!(count_nqueens_solutions(3), 0);
    assert_eq!(count_nqueens_solutions(4), 2);
    assert_eq!(count_nqueens_solutions(6), 4);
    assert_eq!(count_nqueens_solutions(8), 92);
    assert_eq!(count_nqueens_solutions(10), 724);
}

#[test]
fn nqueens_split_by_first_column() {
    let total: u64 = (0..8).map(|c| count_nqueens_with_first(8, c)).sum();
    assert_eq!(total, count_nqueens_solutions(8));
    assert_eq!(count_nqueens_with_first(4, 0), 0);
    assert_eq!(count_nqueens_with_first(4, 1), 1);
}

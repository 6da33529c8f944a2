use pc_benchmark::cpu::{hash_kernel, integer_kernel};
use pc_benchmark::primes::count_primes;
use std::hash::Hasher;
use twox_hash::XxHash64;

#[test]
fn count_primes_small_limits() {
    assert_eq!(count_primes(0), 0);
    assert_eq!(count_primes(1), 0);
    assert_eq!(count_primes(2), 1);
    assert_eq!(count_primes(3), 2);
    assert_eq!(count_primes(4), 2);
    assert_eq!(count_primes(10), 4);
}

#[test]
fn count_primes_known_values() {
    assert_eq!(count_primes(100), 25);
    assert_eq!(count_primes(1000), 168);
    assert_eq!(count_primes(10_000), 1229);
    assert_eq!(count_primes(100_000), 9592);
}

#[test]
fn count_primes_at_a_square() {
    assert_eq!(count_primes(49), 15);
    assert_eq!(count_primes(48), 15);
    assert_eq!(count_primes(47), 15);
    assert_eq!(count_primes(46), 14);
}

fn integer_reference(iterations: u64) -> i64 {
    let mut sum: i64 = 0;
    for i in 0..iterations {
        sum = sum.wrapping_add(i as i64);
        sum = sum.wrapping_mul((i % 100 + 1) as i64);
        sum = sum.wrapping_div((i % 99 + 1) as i64);
    }
    sum
}

#[test]
fn integer_kernel_first_steps() {
    assert_eq!(integer_kernel(0), 0);
    assert_eq!(integer_kernel(1), 0);
    assert_eq!(integer_kernel(3), 3);
}

#[test]
fn integer_kernel_matches_wrapping_loop() {
    for n in [10u64, 100, 1000, 10_000, 100_000] {
        assert_eq!(integer_kernel(n), integer_reference(n));
    }
}

#[test]
fn hash_kernel_of_nothing_is_empty_digest() {
    assert_eq!(hash_kernel(0), 0xEF46DB3751D8E999);
}

#[test]
fn hash_kernel_matches_hasher() {
    for n in [1u64, 2, 7, 100] {
        let mut hasher = XxHash64::default();
        for i in 0..n {
            hasher.write_u64(i);
            hasher.write(b"benchmark string");
        }
        assert_eq!(hash_kernel(n), hasher.finish());
    }
    assert_ne!(hash_kernel(1), hash_kernel(2));
}

use solana_quadratic_funding::isqrt;

#[test]
fn small_roots() {
    let expected: [u64; 18] = [0, 1, 1, 1, 2, 2, 2, 2, 2, 3, 3, 3, 3, 3, 3, 3, 4, 4];
    for n in 0..18u64 {
        assert_eq!(isqrt(n), expected[n as usize]);
    }
}

#[test]
fn roots_around_squares() {
    for r in [2u64, 3, 10, 31622, 65535, 65536, 1_000_000, 4_294_967_295] {
        assert_eq!(isqrt(r * r), r);
        assert_eq!(isqrt(r * r - 1), r - 1);
        assert_eq!(isqrt(r * r + 1), r);
        assert_eq!(isqrt(r * r + 2 * r), r);
    }
}

#[test]
fn largest_root() {
    assert_eq!(isqrt(u64::MAX), 4_294_967_295);
    assert_eq!(isqrt(u64::MAX - 1), 4_294_967_295);
    assert_eq!(isqrt(1 << 63), 3_037_000_499);
}

#[test]
fn root_of_one_sol() {
    assert_eq!(isqrt(1_000_000_000), 31_622);
}

#[test]
fn roots_are_monotone_and_subadditive() {
    for a in 0..60u64 {
        for b in 0..60u64 {
            assert!(isqrt(a) <= isqrt(a + b));
            assert!(isqrt(a + b) <= isqrt(a) + isqrt(b));
        }
    }
}

//! Deterministic integer square root.
//!
//! The score of a project is built from square roots. They are taken on
//! integers, rounding down, so that every machine gets the same figures.
use vstd::prelude::*;

verus! {

/// `r` is the square root of `n`, rounded down.
pub open spec fn is_floor_sqrt(n: nat, r: nat) -> bool {
    r * r <= n < (r + 1) * (r + 1)
}

/// The square root of `n`, rounded down.
pub open spec fn floor_sqrt(n: nat) -> nat {
    choose|r: nat| is_floor_sqrt(n, r)
}

/// Multiplication of naturals keeps the order of both factors.
pub proof fn lemma_mul_ordered(a: nat, b: nat, c: nat, d: nat)
    by (nonlinear_arith)
    requires
        a <= b,
        c <= d,
    ensures
        a * c <= b * d,
{
}

/// Every natural number has a square root rounded down.
proof fn lemma_floor_sqrt_exists(n: nat) -> (r: nat)
    ensures
        is_floor_sqrt(n, r),
    decreases n,
{
    if n == 0 {
        assert(is_floor_sqrt(0, 0)) by (nonlinear_arith);
        0
    } else {
        let p = lemma_floor_sqrt_exists((n - 1) as nat);
        if n < (p + 1) * (p + 1) {
            p
        } else {
            assert((p + 2) * (p + 2) > (p + 1) * (p + 1)) by (nonlinear_arith);
            p + 1
        }
    }
}

/// The defining property of [`floor_sqrt`].
pub proof fn lemma_floor_sqrt(n: nat)
    ensures
        is_floor_sqrt(n, floor_sqrt(n)),
        floor_sqrt(n) * floor_sqrt(n) <= n < (floor_sqrt(n) + 1) * (floor_sqrt(n) + 1),
{
    let r = lemma_floor_sqrt_exists(n);
    assert(is_floor_sqrt(n, r));
}

/// If the square of `r` is at most `n`, then `r` is at most the root of `n`.
pub proof fn lemma_square_below(n: nat, r: nat)
    requires
        r * r <= n,
    ensures
        r <= floor_sqrt(n),
{
    lemma_floor_sqrt(n);
    let s = floor_sqrt(n);
    if r >= s + 1 {
        lemma_mul_ordered(s + 1, r, s + 1, r);
    }
}

/// There is only one square root rounded down.
pub proof fn lemma_floor_sqrt_unique(n: nat, r: nat)
    requires
        is_floor_sqrt(n, r),
    ensures
        r == floor_sqrt(n),
{
    lemma_square_below(n, r);
    lemma_floor_sqrt(n);
    let s = floor_sqrt(n);
    if s >= r + 1 {
        lemma_mul_ordered(r + 1, s, r + 1, s);
    }
}

/// A larger amount never has a smaller root.
pub proof fn law_floor_sqrt_is_monotone(a: nat, b: nat)
    requires
        a <= b,
    ensures
        floor_sqrt(a) <= floor_sqrt(b),
{
    lemma_floor_sqrt(a);
    lemma_square_below(b, floor_sqrt(a));
}

/// The root of a square is the number squared.
pub proof fn law_floor_sqrt_of_square(r: nat)
    ensures
        floor_sqrt(r * r) == r,
{
    assert(r * r < (r + 1) * (r + 1)) by (nonlinear_arith);
    lemma_floor_sqrt_unique(r * r, r);
}

/// Two amounts have at least as much root between them as their sum has.
pub proof fn law_floor_sqrt_is_subadditive(a: nat, b: nat)
    ensures
        floor_sqrt(a + b) <= floor_sqrt(a) + floor_sqrt(b),
{
    lemma_floor_sqrt(a);
    lemma_floor_sqrt(b);
    lemma_floor_sqrt(a + b);
    let (ra, rb, s) = (floor_sqrt(a), floor_sqrt(b), floor_sqrt(a + b));
    if s >= ra + rb + 1 {
        lemma_mul_ordered(ra + rb + 1, s, ra + rb + 1, s);
        assert((ra + rb + 1) * (ra + rb + 1) > a + b) by (nonlinear_arith)
            requires
                a < (ra + 1) * (ra + 1),
                b < (rb + 1) * (rb + 1),
        ;
    }
}

/// The root of nothing is nothing.
pub proof fn lemma_root_of_zero()
    ensures
        floor_sqrt(0) == 0,
{
    assert(is_floor_sqrt(0, 0)) by (nonlinear_arith);
    lemma_floor_sqrt_unique(0, 0);
}

/// A positive amount has a positive root.
pub proof fn lemma_root_of_positive(n: nat)
    requires
        n > 0,
    ensures
        floor_sqrt(n) > 0,
{
    lemma_square_below(n, 1);
}

/// A root does not exceed what it is the root of.
pub proof fn lemma_root_below(n: nat)
    ensures
        floor_sqrt(n) <= n,
{
    lemma_floor_sqrt(n);
    let s = floor_sqrt(n);
    assert(s <= s * s) by (nonlinear_arith);
}

/// The root of a `u64` fits in 32 bits.
pub proof fn lemma_root_fits(n: u64)
    ensures
        floor_sqrt(n as nat) <= u32::MAX,
{
    lemma_floor_sqrt(n as nat);
    let s = floor_sqrt(n as nat);
    if s >= 0x1_0000_0000 {
        lemma_mul_ordered(0x1_0000_0000, s, 0x1_0000_0000, s);
    }
}

/// Facts about one step of Newton's method from `x` to `(x + n / x) / 2`: the
/// step does not fall below the root, and where it does not fall below `x`,
/// `x` does not exceed the root.
proof fn lemma_newton_step(n: nat, x: nat)
    requires
        x > 0,
    ensures
        floor_sqrt(n) <= (x + n / x) / 2,
        x <= (x + n / x) / 2 ==> x <= floor_sqrt(n),
{
    let q = n / x;
    let s = floor_sqrt(n);
    let y = (x + q) / 2;
    lemma_floor_sqrt(n);
    assert(x * q <= n < x * (q + 1)) by (nonlinear_arith)
        requires
            x > 0,
            q == n / x,
    ;
    if y < s {
        assert(x * (q + 1) <= x * (2 * s - x)) by (nonlinear_arith)
            requires
                q + 1 <= 2 * s - x,
                x > 0,
        ;
        assert(x * (2 * s - x) <= s * s) by (nonlinear_arith);
    }
    if x <= y {
        lemma_mul_ordered(x, x, x, q);
        lemma_square_below(n, x);
    }
}

/// The sum in a step of Newton's method fits in 64 bits.
proof fn lemma_newton_sum_fits(n: u64, x: u64)
    requires
        1 <= x < n,
        floor_sqrt(n as nat) <= x,
    ensures
        x + n / x <= u64::MAX,
{
    lemma_floor_sqrt(n as nat);
    let q = n / x;
    assert(x * q <= n) by (nonlinear_arith)
        requires
            x > 0,
            q == n / x,
    ;
    if x == 1 {
        let s = floor_sqrt(n as nat);
        lemma_mul_ordered(s + 1, 2, s + 1, 2);
    } else if q >= 2 {
        assert(x + q <= n) by (nonlinear_arith)
            requires
                x * q <= n,
                x >= 2,
                q >= 2,
        ;
    }
}

/// Returns the square root of `n`, rounded down, by Newton's method.
pub fn isqrt(n: u64) -> (r: u64)
    ensures
        r == floor_sqrt(n as nat),
        r * r <= n < (r + 1) * (r + 1),
{
    if n == 0 {
        proof {
            lemma_root_of_zero();
        }
        return 0;
    }
    let mut x: u64 = n;
    let mut y: u64 = x / 2 + x % 2;
    proof {
        lemma_floor_sqrt(n as nat);
        assert(n / n == 1) by (nonlinear_arith)
            requires
                n > 0,
        ;
        lemma_newton_step(n as nat, x as nat);
        lemma_root_below(n as nat);
        lemma_root_of_positive(n as nat);
    }
    while y < x
        invariant
            1 <= floor_sqrt(n as nat) <= y,
            floor_sqrt(n as nat) <= x <= n,
            y == (x + n / x) / 2,
        decreases x,
    {
        x = y;
        proof {
            lemma_newton_sum_fits(n, x);
            lemma_newton_step(n as nat, x as nat);
        }
        y = (x + n / x) / 2;
    }
    proof {
        lemma_newton_step(n as nat, x as nat);
        lemma_floor_sqrt(n as nat);
    }
    x
}

/// The square root of `n`, rounded down, is the one number whose square does not
/// exceed `n` while the square of the next number does.
pub proof fn law_floor_sqrt_is_the_root(n: nat, r: nat)
    ensures
        r == floor_sqrt(n) <==> r * r <= n < (r + 1) * (r + 1),
{
    lemma_floor_sqrt(n);
    if r * r <= n < (r + 1) * (r + 1) {
        lemma_floor_sqrt_unique(n, r);
    }
}

} // verus!

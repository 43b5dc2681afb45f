//! Safe arithmetic kernel: wide products and the exact integer square root.
use vstd::prelude::*;

verus! {

/// The product of two 64-bit values fits in 128 bits.
pub proof fn lemma_wide_product_fits(a: u64, b: u64)
    ensures
        0 <= a as int * b as int <= u128::MAX,
{
    assert(0 <= a as int * b as int <= u64::MAX as int * u64::MAX as int) by (nonlinear_arith);
}

/// `r` is the floor of the square root of `n`.
pub open spec fn is_floor_sqrt(n: int, r: int) -> bool {
    0 <= r && r * r <= n && n < (r + 1) * (r + 1)
}

/// The floor of the square root of `n`.
pub open spec fn floor_sqrt(n: int) -> int {
    choose|r: int| is_floor_sqrt(n, r)
}

/// The floor square root is unique.
pub proof fn lemma_floor_sqrt_unique(n: int, r1: int, r2: int)
    requires
        is_floor_sqrt(n, r1),
        is_floor_sqrt(n, r2),
    ensures
        r1 == r2,
{
    if r1 < r2 {
        assert((r1 + 1) * (r1 + 1) <= r2 * r2) by (nonlinear_arith)
            requires 0 <= r1 < r2;
    } else if r2 < r1 {
        assert((r2 + 1) * (r2 + 1) <= r1 * r1) by (nonlinear_arith)
            requires 0 <= r2 < r1;
    }
}

/// Every natural number has a floor square root, and `floor_sqrt` is it.
pub proof fn lemma_floor_sqrt_exists(n: int)
    requires
        0 <= n,
    ensures
        is_floor_sqrt(n, floor_sqrt(n)),
    decreases n,
{
    if n == 0 {
        assert(is_floor_sqrt(0, 0));
        lemma_floor_sqrt_is(0, 0);
    } else {
        lemma_floor_sqrt_exists(n - 1);
        let r = floor_sqrt(n - 1);
        if (r + 1) * (r + 1) <= n {
            assert(n < (r + 2) * (r + 2)) by (nonlinear_arith)
                requires n - 1 < (r + 1) * (r + 1), 0 <= r;
            lemma_floor_sqrt_is(n, r + 1);
        } else {
            lemma_floor_sqrt_is(n, r);
        }
    }
}

/// Any witness of the floor square root is `floor_sqrt`.
pub proof fn lemma_floor_sqrt_is(n: int, r: int)
    requires
        is_floor_sqrt(n, r),
    ensures
        floor_sqrt(n) == r,
{
    assert(exists|s: int| is_floor_sqrt(n, s));
    lemma_floor_sqrt_unique(n, r, floor_sqrt(n));
}

/// One Newton step from any positive guess never drops below the floor square
/// root: `n < (y + 1)^2` where `y = (x + n / x) / 2`.
proof fn lemma_newton_step_stays_above(n: int, x: int)
    requires
        0 <= n,
        0 < x,
    ensures
        n < ((x + n / x) / 2 + 1) * ((x + n / x) / 2 + 1),
{
    let q = n / x;
    let y = (x + q) / 2;
    assert(n < x * (q + 1)) by (nonlinear_arith)
        requires 0 < x, q == n / x;
    assert(4 * (x * (q + 1)) <= (x + q + 1) * (x + q + 1)) by (nonlinear_arith);
    assert(x + q + 1 <= 2 * (y + 1));
    assert(0 <= x + q + 1) by (nonlinear_arith)
        requires 0 < x, 0 <= n, q == n / x;
    assert((x + q + 1) * (x + q + 1) <= 4 * ((y + 1) * (y + 1))) by (nonlinear_arith)
        requires 0 <= x + q + 1 <= 2 * (y + 1);
}

/// A guess above the floor square root is strictly improved by a Newton step.
proof fn lemma_newton_step_descends(n: int, x: int)
    requires
        0 <= n,
        0 < x,
        n < x * x,
    ensures
        (x + n / x) / 2 < x,
{
    let q = n / x;
    assert(q < x) by (nonlinear_arith)
        requires 0 < x, q == n / x, n < x * x, 0 <= n;
}

/// Integer square root by Newton's method: the largest `r` with `r * r <= n`.
pub fn isqrt(n: u128) -> (r: u128)
    ensures
        is_floor_sqrt(n as int, r as int),
        r == floor_sqrt(n as int),
{
    if n < 2 {
        assert(n * n <= n < (n + 1) * (n + 1)) by (nonlinear_arith)
            requires n < 2;
        proof {
            lemma_floor_sqrt_is(n as int, n as int);
        }
        return n;
    }
    let mut x: u128 = n;
    let mut y: u128 = n / 2 + n % 2;
    proof {
        assert(n as int / n as int == 1) by (nonlinear_arith)
            requires n >= 2;
        lemma_newton_step_stays_above(n as int, n as int);
        assert(n < (n + 1) * (n + 1)) by (nonlinear_arith)
            requires n >= 2;
    }
    while y < x
        invariant
            2 <= n,
            0 < x <= n,
            y as int == (x + n / x) / 2,
            n < (x + 1) * (x + 1),
            n < (y + 1) * (y + 1),
        decreases x,
    {
        x = y;
        proof {
            assert(x > 0) by (nonlinear_arith)
                requires n < (x + 1) * (x + 1), n >= 2;
        }
        let q: u128 = n / x;
        y = if x >= q { q + (x - q) / 2 } else { x + (q - x) / 2 };
        proof {
            lemma_newton_step_stays_above(n as int, x as int);
        }
    }
    proof {
        if n < x * x {
            lemma_newton_step_descends(n as int, x as int);
        }
        lemma_floor_sqrt_is(n as int, x as int);
    }
    x
}

} // verus!

//! Fixed-point arithmetic for the simulation: truncating scaling of products,
//! the friction factor applied on a bounce, and an exact integer square root.

use vstd::prelude::*;

verus! {

/// Fixed-point scale: all lengths, velocities and durations are stored in
/// thousandths of their nominal unit.
pub const SCALE: i64 = 1000;

/// Absolute value of a mathematical integer.
pub open spec fn iabs(a: int) -> int {
    if a >= 0 {
        a
    } else {
        -a
    }
}

/// Division rounded toward zero (for a positive divisor), the rounding the
/// executable code applies when scaling a product back down.
pub open spec fn div_trunc(a: int, b: int) -> int {
    if a >= 0 {
        a / b
    } else {
        -((-a) / b)
    }
}

/// The product of a fixed-point quantity `a` and a fixed-point factor `b`
/// (a duration, say), scaled back down and rounded toward zero.
pub open spec fn mul_scaled(a: int, b: int) -> int {
    div_trunc(a * b, SCALE as int)
}

/// Computes `mul_scaled(a, b)` for a nonnegative factor `b`.
pub fn mul_div_scale(a: i64, b: i64) -> (r: i64)
    requires
        0 <= b,
        -0x7fff_ffff_ffff_ffff <= a,
        -0x7fff_ffff_ffff_ffff <= a * b <= 0x7fff_ffff_ffff_ffff,
    ensures
        r == mul_scaled(a as int, b as int),
{
    if a >= 0 {
        proof {
            assert(a * b >= 0) by (nonlinear_arith)
                requires a >= 0 && b >= 0;
        }
        let p: i64 = a * b;
        let q: u64 = (p as u64) / 1000;
        assert(q <= p as u64 / 1000);
        q as i64
    } else {
        proof {
            assert((-a) * b == -(a * b) && (-a) * b >= 0) by (nonlinear_arith)
                requires a < 0 && b >= 0;
        }
        let p: i64 = (-a) * b;
        let q: u64 = (p as u64) / 1000;
        -(q as i64)
    }
}

/// Exact floor of the square root, defined by structural recursion
/// (`sqrt_floor(n)` is derived from `sqrt_floor(n / 4)`).
pub open spec fn sqrt_floor(n: nat) -> nat
    decreases n,
{
    if n == 0 {
        0
    } else {
        let r = 2 * sqrt_floor(n / 4);
        if (r + 1) * (r + 1) <= n {
            r + 1
        } else {
            r
        }
    }
}

/// `sqrt_floor` really is the floor of the square root.
pub proof fn lemma_sqrt_floor(n: nat)
    ensures
        sqrt_floor(n) * sqrt_floor(n) <= n,
        n < (sqrt_floor(n) + 1) * (sqrt_floor(n) + 1),
    decreases n,
{
    if n == 0 {
        assert(sqrt_floor(n) == 0);
        assert(n < (sqrt_floor(n) + 1) * (sqrt_floor(n) + 1)) by (nonlinear_arith)
            requires n == 0 && sqrt_floor(n) == 0;
    } else {
        let m = n / 4;
        lemma_sqrt_floor(m);
        let s = sqrt_floor(m);
        let r = 2 * s;
        assert(4 * m <= n && n < 4 * m + 4);
        assert(r * r == 4 * (s * s)) by (nonlinear_arith)
            requires r == 2 * s;
        assert(4 * (s * s) <= 4 * m) by (nonlinear_arith)
            requires s * s <= m;
        assert((r + 2) * (r + 2) == 4 * ((s + 1) * (s + 1))) by (nonlinear_arith)
            requires r == 2 * s;
        assert(4 * (m + 1) <= 4 * ((s + 1) * (s + 1))) by (nonlinear_arith)
            requires m + 1 <= (s + 1) * (s + 1);
        assert(r * r <= n && n < (r + 2) * (r + 2));
        let res = sqrt_floor(n);
        if (r + 1) * (r + 1) <= n {
            assert(res == r + 1);
            assert(res * res <= n) by (nonlinear_arith)
                requires res == r + 1 && (r + 1) * (r + 1) <= n;
            assert(n < (res + 1) * (res + 1)) by (nonlinear_arith)
                requires res == r + 1 && n < (r + 2) * (r + 2);
        } else {
            assert(res == r);
            assert(res * res <= n);
            assert(n < (res + 1) * (res + 1));
        }
        assert(n < (sqrt_floor(n) + 1) * (sqrt_floor(n) + 1));
    }
}

/// Any `r` bracketing `n` between consecutive squares is `sqrt_floor(n)`.
pub proof fn lemma_sqrt_unique(n: nat, r: nat)
    requires
        r * r <= n,
        n < (r + 1) * (r + 1),
    ensures
        r == sqrt_floor(n),
{
    let s = sqrt_floor(n);
    lemma_sqrt_floor(n);
    if r < s {
        assert((r + 1) * (r + 1) <= s * s) by (nonlinear_arith)
            requires r + 1 <= s;
        assert(false);
    }
    if s < r {
        assert((s + 1) * (s + 1) <= r * r) by (nonlinear_arith)
            requires s + 1 <= r;
        assert(false);
    }
}

/// The square root is monotone.
pub proof fn lemma_sqrt_monotone(a: nat, b: nat)
    requires
        a <= b,
    ensures
        sqrt_floor(a) <= sqrt_floor(b),
{
    lemma_sqrt_floor(a);
    lemma_sqrt_floor(b);
    let ra = sqrt_floor(a);
    let rb = sqrt_floor(b);
    if rb < ra {
        assert((rb + 1) * (rb + 1) <= ra * ra) by (nonlinear_arith)
            requires rb + 1 <= ra;
        assert(false);
    }
}

/// The square root of a perfect square.
pub proof fn lemma_sqrt_square(x: nat)
    ensures
        sqrt_floor(x * x) == x,
{
    assert(x * x < (x + 1) * (x + 1)) by (nonlinear_arith);
    lemma_sqrt_unique(x * x, x);
}

/// A bound on the numerator bounds the truncated quotient.
pub proof fn lemma_div_trunc_bound(a: int, b: int, c: int)
    requires
        0 < b,
        0 <= c,
        -(c * b) <= a <= c * b,
    ensures
        -c <= div_trunc(a, b) <= c,
{
    if a >= 0 {
        vstd::arithmetic::div_mod::lemma_div_is_ordered(a, c * b, b);
        vstd::arithmetic::div_mod::lemma_div_by_multiple(c, b);
        vstd::arithmetic::div_mod::lemma_div_pos_is_pos(a, b);
    } else {
        vstd::arithmetic::div_mod::lemma_div_is_ordered(-a, c * b, b);
        vstd::arithmetic::div_mod::lemma_div_by_multiple(c, b);
        vstd::arithmetic::div_mod::lemma_div_pos_is_pos(-a, b);
    }
}

/// Truncated division undoes an exact multiple.
pub proof fn lemma_div_trunc_exact(k: int, b: int)
    requires
        0 < b,
    ensures
        div_trunc(k * b, b) == k,
{
    if k >= 0 {
        assert(k * b >= 0) by (nonlinear_arith)
            requires k >= 0 && b > 0;
        vstd::arithmetic::div_mod::lemma_div_by_multiple(k, b);
    } else {
        assert(k * b < 0 && (-(k * b)) == (-k) * b) by (nonlinear_arith)
            requires k < 0 && b > 0;
        vstd::arithmetic::div_mod::lemma_div_by_multiple(-k, b);
    }
}

/// Exact integer square root, by binary search on the answer.
pub fn isqrt(n: u128) -> (r: u64)
    ensures
        r == sqrt_floor(n as nat),
{
    let mut lo: u128 = 0;
    let mut hi: u128 = 0x1_0000_0000_0000_0000;
    proof {
        assert((hi as int) * (hi as int) > u128::MAX) by (nonlinear_arith)
            requires hi == 0x1_0000_0000_0000_0000u128;
    }
    while hi - lo > 1
        invariant
            lo < hi <= 0x1_0000_0000_0000_0000,
            (lo as int) * (lo as int) <= n as int,
            (n as int) < (hi as int) * (hi as int),
        decreases hi - lo,
    {
        let mid: u128 = lo + (hi - lo) / 2;
        assert(lo < mid < hi);
        proof {
            assert((mid as int) * (mid as int) < 0x1_0000_0000_0000_0000_0000_0000_0000_0000int)
                by (nonlinear_arith)
                requires mid < 0x1_0000_0000_0000_0000u128;
        }
        let sq: u128 = mid * mid;
        if sq <= n {
            lo = mid;
        } else {
            hi = mid;
        }
    }
    proof {
        assert(hi == lo + 1);
        lemma_sqrt_unique(n as nat, lo as nat);
    }
    lo as u64
}

} // verus!

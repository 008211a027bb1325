//! Fixed-point scalars: an `i64` counts micro-units, so `ONE` stands for 1.0.
//!
//! The spec functions `fpmul` and `fpdiv` give the exact mathematical meaning
//! of the executable operations: multiply or divide, then truncate toward
//! zero, exactly as the hardware division does.

use vstd::prelude::*;

verus! {

/// The fixed-point scale: this many raw ticks stand for 1.0.
pub const ONE: i64 = 1_000_000;

/// Largest magnitude accepted by `mul_fp` and `div_fp`; keeps every
/// intermediate product inside `i128` and every quotient inside `i64`.
pub const LIM: i64 = 3_000_000_000_000;

/// Magnitude of an integer.
pub open spec fn iabs(x: int) -> int {
    if x >= 0 {
        x
    } else {
        -x
    }
}

/// Division truncating toward zero, total (zero divisor gives zero), the
/// rounding that machine division performs.
pub open spec fn tdiv(n: int, d: int) -> int {
    if d == 0 {
        0
    } else if (n >= 0) == (d >= 0) {
        iabs(n) / iabs(d)
    } else {
        -(iabs(n) / iabs(d))
    }
}

/// Fixed-point product: `a * b` rescaled by `ONE`, truncated toward zero.
pub open spec fn fpmul(a: int, b: int) -> int {
    tdiv(a * b, ONE as int)
}

/// Fixed-point quotient: `a / b` rescaled by `ONE`, truncated toward zero.
pub open spec fn fpdiv(a: int, b: int) -> int {
    tdiv(a * (ONE as int), b)
}

/// Fixed-point multiplication.
pub fn mul_fp(a: i64, b: i64) -> (r: i64)
    requires
        -LIM <= a <= LIM,
        -LIM <= b <= LIM,
    ensures
        r == fpmul(a as int, b as int),
        iabs(r as int) <= iabs(a as int) * iabs(b as int) / (ONE as int),
{
    proof {
        assert(iabs(a as int) * iabs(b as int) <= (LIM as int) * (LIM as int)) by (nonlinear_arith)
            requires
                -LIM <= a <= LIM,
                -LIM <= b <= LIM,
        ;
        assert((a as int) * (b as int) <= iabs(a as int) * iabs(b as int)
            && -(iabs(a as int) * iabs(b as int)) <= (a as int) * (b as int)) by (nonlinear_arith);
    }
    let p: i128 = (a as i128) * (b as i128);
    let neg: bool = p < 0;
    let m: u128 = if neg {
        (-p) as u128
    } else {
        p as u128
    };
    let q: u128 = m / (ONE as u128);
    if neg {
        -(q as i64)
    } else {
        q as i64
    }
}

/// Fixed-point division. The divisor must be nonzero; the quotient always
/// fits because the dividend is bounded by `LIM`.
pub fn div_fp(a: i64, b: i64) -> (r: i64)
    requires
        -LIM <= a <= LIM,
        b != 0,
    ensures
        r == fpdiv(a as int, b as int),
        iabs(r as int) <= iabs((a as int) * (ONE as int)),
{
    proof {
        assert(-3_000_000_000_000_000_000 <= (a as int) * 1_000_000 <= 3_000_000_000_000_000_000)
            by (nonlinear_arith)
            requires
                -3_000_000_000_000 <= a <= 3_000_000_000_000,
        ;
    }
    let n: i128 = (a as i128) * (ONE as i128);
    let neg: bool = (n < 0) != (b < 0);
    let m: u128 = if n < 0 {
        (-n) as u128
    } else {
        n as u128
    };
    let d: u128 = if b < 0 {
        (-(b as i128)) as u128
    } else {
        b as u128
    };
    proof {
        assert(m / d <= m) by (nonlinear_arith)
            requires
                d >= 1,
        ;
    }
    let q: u128 = m / d;
    if neg {
        -(q as i64)
    } else {
        q as i64
    }
}

/// `r` is the integer square root of `n`.
pub open spec fn is_isqrt(r: int, n: int) -> bool {
    0 <= r && r * r <= n < (r + 1) * (r + 1)
}

/// The integer square root is unique.
pub proof fn lemma_isqrt_unique(a: int, b: int, n: int)
    requires
        is_isqrt(a, n),
        is_isqrt(b, n),
    ensures
        a == b,
{
    if a < b {
        assert((a + 1) * (a + 1) <= b * b) by (nonlinear_arith)
            requires
                0 <= a < b,
        ;
    }
    if b < a {
        assert((b + 1) * (b + 1) <= a * a) by (nonlinear_arith)
            requires
                0 <= b < a,
        ;
    }
}

/// The integer square root of `n`, as a spec-level value. Well defined for
/// any `n` for which some root exists; `lemma_sqrt_of_is` pins it down from
/// any witness, such as the result of `isqrt`.
pub open spec fn sqrt_of(n: int) -> int {
    choose|r: int| is_isqrt(r, n)
}

/// Any witness of `is_isqrt` is the value of `sqrt_of`.
pub proof fn lemma_sqrt_of_is(r: int, n: int)
    requires
        is_isqrt(r, n),
    ensures
        sqrt_of(n) == r,
{
    assert(exists|q: int| is_isqrt(q, n));
    lemma_isqrt_unique(sqrt_of(n), r, n);
}

/// Every nonnegative integer has an integer square root, so `sqrt_of` of it
/// is a genuine root.
pub proof fn lemma_isqrt_exists(n: int)
    requires
        n >= 0,
    ensures
        is_isqrt(sqrt_of(n), n),
    decreases n,
{
    if n == 0 {
        assert((0 + 1) * (0 + 1) == 1) by (nonlinear_arith);
        assert(is_isqrt(0, 0));
        lemma_sqrt_of_is(0, 0);
    } else {
        lemma_isqrt_exists(n - 1);
        let p = sqrt_of(n - 1);
        if (p + 1) * (p + 1) <= n {
            assert(n < (p + 2) * (p + 2)) by (nonlinear_arith)
                requires
                    0 <= p,
                    n - 1 < (p + 1) * (p + 1),
                    (p + 1) * (p + 1) <= n,
            ;
            assert(is_isqrt(p + 1, n));
            lemma_sqrt_of_is(p + 1, n);
        } else {
            assert(is_isqrt(p, n));
            lemma_sqrt_of_is(p, n);
        }
    }
}

/// Truncating division leaves a remainder smaller than the divisor:
/// `tdiv(n, d) * d` misses `n` by less than `d`.
pub proof fn lemma_tdiv_rem(n: int, d: int)
    requires
        d >= 1,
    ensures
        iabs(tdiv(n, d) * d - n) <= d - 1,
        iabs(tdiv(n, d)) <= iabs(n),
{
    let a = iabs(n);
    let q = a / d;
    let r = a % d;
    vstd::arithmetic::div_mod::lemma_fundamental_div_mod(a, d);
    assert(a == d * q + r);
    assert(0 <= r < d) by {
        vstd::arithmetic::div_mod::lemma_mod_division_less_than_divisor(a, d);
    };
    assert(q >= 0) by {
        vstd::arithmetic::div_mod::lemma_div_pos_is_pos(a, d);
    };
    assert(q * d == a - r) by (nonlinear_arith)
        requires
            a == d * q + r,
    ;
    assert(q <= a) by (nonlinear_arith)
        requires
            d >= 1,
            q * d == a - r,
            0 <= r < d,
            a >= 0,
            q >= 0,
    ;
    if n >= 0 {
        assert(tdiv(n, d) == q);
    } else {
        assert(tdiv(n, d) == -q);
        assert((-q) * d == -(q * d)) by (nonlinear_arith);
    }
}

/// Integer square root by bisection.
pub fn isqrt(n: u128) -> (r: u64)
    ensures
        is_isqrt(r as int, n as int),
{
    let mut lo: u64 = 0;
    let mut hi: u64 = u64::MAX;
    proof {
        assert(((hi as int) + 1) * ((hi as int) + 1) > n as int) by (nonlinear_arith)
            requires
                hi == u64::MAX,
                n <= u128::MAX,
        ;
    }
    while lo < hi
        invariant
            lo <= hi,
            (lo as int) * (lo as int) <= n as int,
            (n as int) < ((hi as int) + 1) * ((hi as int) + 1),
        decreases hi - lo,
    {
        let mid: u64 = lo + 1 + (hi - 1 - lo) / 2;
        proof {
            assert((mid as int) * (mid as int) <= (u64::MAX as int) * (u64::MAX as int))
                by (nonlinear_arith)
                requires
                    0 <= mid <= u64::MAX,
            ;
        }
        let sq: u128 = (mid as u128) * (mid as u128);
        if sq <= n {
            lo = mid;
        } else {
            hi = mid - 1;
        }
    }
    lo
}

} // verus!

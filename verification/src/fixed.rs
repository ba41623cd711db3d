//! Fixed-point scalars: every quantity is an `i64` counting thousandths.
//!
//! The helpers here are the arithmetic kernel of the crate: truncating
//! division, fixed-point multiplication and an integer square root, each
//! with an exact specification.

use vstd::prelude::*;

verus! {

/// Number of fixed-point steps per world unit.
pub const SCALE: i64 = 1000;

/// Absolute value, kept in `int` so it composes without coercions.
pub open spec fn absi(x: int) -> int {
    if x < 0 {
        -x
    } else {
        x
    }
}

/// Truncating division (rounding toward zero), for any nonzero divisor.
/// Spec `/` is Euclidean, so the signs are handled explicitly.
pub open spec fn div_trunc(a: int, b: int) -> int {
    let q = absi(a) / absi(b);
    if (a >= 0) == (b >= 0) {
        q
    } else {
        -q
    }
}

/// `r` is the integer square root of `n`.
pub open spec fn is_isqrt(n: int, r: int) -> bool {
    &&& 0 <= r
    &&& r * r <= n
    &&& n < (r + 1) * (r + 1)
}

/// The integer square root as a function, so contracts can name the value.
pub open spec fn isqrt_spec(n: int) -> int
    decreases n,
{
    if n < 1 {
        0
    } else {
        let r = isqrt_spec(n - 1);
        if (r + 1) * (r + 1) <= n {
            r + 1
        } else {
            r
        }
    }
}

/// `isqrt_spec` really is the integer square root.
pub proof fn lemma_isqrt_spec_is_isqrt(n: int)
    requires
        0 <= n,
    ensures
        is_isqrt(n, isqrt_spec(n)),
    decreases n,
{
    if n == 0 {
        assert(isqrt_spec(0) == 0);
    } else {
        lemma_isqrt_spec_is_isqrt(n - 1);
        let r = isqrt_spec(n - 1);
        assert(r * r <= n - 1 < (r + 1) * (r + 1));
        if (r + 1) * (r + 1) <= n {
            assert((r + 2) * (r + 2) > n) by (nonlinear_arith)
                requires
                    n - 1 < (r + 1) * (r + 1),
                    0 <= r,
            ;
        }
    }
}

/// There is only one integer square root.
pub proof fn lemma_isqrt_unique(n: int, a: int, b: int)
    by (nonlinear_arith)
    requires
        is_isqrt(n, a),
        is_isqrt(n, b),
    ensures
        a == b,
{
}

/// Floor square root of a `u128`, by bisection.
pub fn isqrt(n: u128) -> (r: u128)
    ensures
        r == isqrt_spec(n as int),
        is_isqrt(n as int, r as int),
{
    proof {
        lemma_isqrt_spec_is_isqrt(n as int);
    }
    if n == 0 {
        return 0;
    }
    let mut lo: u128 = 0;
    let mut hi: u128 = 0x1_0000_0000_0000_0000;
    assert(hi * hi > n) by (nonlinear_arith)
        requires
            hi == 0x1_0000_0000_0000_0000u128,
            n <= u128::MAX,
    ;
    while hi - lo > 1
        invariant
            lo < hi,
            hi <= 0x1_0000_0000_0000_0000,
            lo * lo <= n,
            n < hi * hi,
        decreases hi - lo,
    {
        let mid = lo + (hi - lo) / 2;
        assert(mid * mid <= u128::MAX) by (nonlinear_arith)
            requires
                mid < 0x1_0000_0000_0000_0000u128,
        ;
        if mid * mid <= n {
            lo = mid;
        } else {
            hi = mid;
        }
    }
    proof {
        lemma_isqrt_unique(n as int, lo as int, isqrt_spec(n as int));
    }
    lo
}

/// Truncating division on machine integers.
pub fn div_trunc_i64(a: i64, b: i64) -> (r: i64)
    requires
        b != 0,
        i64::MIN < a,
        i64::MIN < b,
    ensures
        r == div_trunc(a as int, b as int),
{
    let am: u64 = if a >= 0 {
        a as u64
    } else {
        (-a) as u64
    };
    let bm: u64 = if b >= 0 {
        b as u64
    } else {
        (-b) as u64
    };
    let q = am / bm;
    if (a >= 0) == (b >= 0) {
        q as i64
    } else {
        -(q as i64)
    }
}

/// Magnitude of a truncated quotient never exceeds the dividend's.
pub proof fn lemma_div_trunc_bound(a: int, b: int)
    by (nonlinear_arith)
    requires
        b != 0,
    ensures
        absi(div_trunc(a, b)) <= absi(a),
        absi(div_trunc(a, b)) * absi(b) <= absi(a),
        absi(a) < absi(b) ==> div_trunc(a, b) == 0,
{
}

/// Truncating division is monotone in the dividend.
pub proof fn lemma_div_trunc_mono(a1: int, a2: int, b: int)
    requires
        b > 0,
        a1 <= a2,
    ensures
        div_trunc(a1, b) <= div_trunc(a2, b),
{
    if a1 >= 0 {
        vstd::arithmetic::div_mod::lemma_div_is_ordered(a1, a2, b);
    } else if a2 < 0 {
        vstd::arithmetic::div_mod::lemma_div_is_ordered(-a2, -a1, b);
    } else {
        vstd::arithmetic::div_mod::lemma_div_is_ordered(0, -a1, b);
        vstd::arithmetic::div_mod::lemma_div_is_ordered(0, a2, b);
        vstd::arithmetic::div_mod::lemma_div_of0(b);
    }
}

/// Truncating an exact multiple recovers the factor.
pub proof fn lemma_div_trunc_cancel(x: int, s: int)
    requires
        s > 0,
    ensures
        div_trunc(s * x, s) == x,
{
    if x >= 0 {
        vstd::arithmetic::div_mod::lemma_div_multiples_vanish(x, s);
        assert(absi(s * x) == s * x && (s * x >= 0)) by (nonlinear_arith)
            requires
                s > 0,
                x >= 0,
        ;
    } else {
        vstd::arithmetic::div_mod::lemma_div_multiples_vanish(-x, s);
        assert(absi(s * x) == s * (-x) && s * x < 0) by (nonlinear_arith)
            requires
                s > 0,
                x < 0,
        ;
    }
}

/// The division error: `a - div_trunc(a, b) * b` stays below `|b|`.
pub proof fn lemma_div_trunc_error(a: int, b: int)
    by (nonlinear_arith)
    requires
        b != 0,
    ensures
        absi(a - div_trunc(a, b) * b) < absi(b),
{
}

/// Euclidean remainder on machine integers: the result is in `[0, m)`.
pub fn emod_i64(a: i64, m: i64) -> (r: i64)
    requires
        0 < m,
        i64::MIN < a,
    ensures
        r == a as int % m as int,
        0 <= r < m,
{
    proof {
        lemma_div_trunc_bound(a as int, m as int);
        lemma_div_trunc_error(a as int, m as int);
    }
    let q = div_trunc_i64(a, m);
    proof {
        assert(i64::MIN <= div_trunc(a as int, m as int) * m <= i64::MAX) by (nonlinear_arith)
            requires
                absi(div_trunc(a as int, m as int)) * absi(m as int) <= absi(a as int),
                i64::MIN < a,
                0 < m,
        ;
    }
    let r0 = a - q * m;
    proof {
        vstd::arithmetic::div_mod::lemma_fundamental_div_mod(a as int, m as int);
        vstd::arithmetic::div_mod::lemma_mod_bound(a as int, m as int);
        assert(r0 == a as int % m as int || r0 + m == a as int % m as int) by (nonlinear_arith)
            requires
                0 < m,
                r0 == a - div_trunc(a as int, m as int) * m,
                absi(a - div_trunc(a as int, m as int) * m) < m,
                div_trunc(a as int, m as int) == if a >= 0 {
                    absi(a as int) / (m as int)
                } else {
                    -(absi(a as int) / (m as int))
                },
                a as int == (m as int) * ((a as int) / (m as int)) + (a as int) % (m as int),
                0 <= (a as int) % (m as int) < m,
        ;
    }
    if r0 < 0 {
        r0 + m
    } else {
        r0
    }
}

/// Fixed-point product: `(a * b) / SCALE`, truncated toward zero.
pub open spec fn fmul(a: int, b: int) -> int {
    div_trunc(a * b, SCALE as int)
}

/// A fixed-point product of two unit-range factors stays in range.
pub proof fn lemma_fmul_unit(a: int, b: int)
    requires
        0 <= a <= 1000,
        0 <= b <= 1000,
    ensures
        0 <= fmul(a, b) <= 1000,
{
    lemma_div_trunc_bound(a * b, SCALE as int);
    assert(0 <= fmul(a, b) <= 1000) by (nonlinear_arith)
        requires
            0 <= a <= 1000,
            0 <= b <= 1000,
            fmul(a, b) == div_trunc(a * b, SCALE as int),
            absi(div_trunc(a * b, SCALE as int)) * SCALE <= absi(a * b),
            SCALE == 1000i64,
    ;
}

/// Fixed-point multiplication on machine integers.
pub fn fixed_mul(a: i64, b: i64) -> (r: i64)
    requires
        i64::MIN < a * b <= i64::MAX,
    ensures
        r == fmul(a as int, b as int),
{
    let p = a * b;
    div_trunc_i64(p, SCALE)
}

} // verus!

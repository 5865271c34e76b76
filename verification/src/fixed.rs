//! Fixed-point scalar arithmetic.
//!
//! A scalar is an `i64` holding the real value times [`SCALE`]. Products of
//! two scalars are divided by [`SCALE`] again, rounding toward zero, which is
//! what [`fx_mul`] states and [`fx_mul_exec`] computes.

use vstd::prelude::*;

verus! {

/// A fixed-point scalar holds the real value times this factor.
pub const SCALE: i64 = 65536;

/// Magnitude of an integer.
pub open spec fn abs_int(a: int) -> int {
    if a >= 0 {
        a
    } else {
        -a
    }
}

/// Integer division rounding toward zero (the rounding used by every scaled
/// product and quotient in this crate).
pub open spec fn tdiv(a: int, d: int) -> int
    recommends
        d > 0,
{
    if a >= 0 {
        a / d
    } else {
        -((-a) / d)
    }
}

/// Product of two fixed-point scalars: `a * b / SCALE`, rounded toward zero.
pub open spec fn fx_mul(a: int, b: int) -> int {
    tdiv(a * b, SCALE as int)
}

/// Whether a mathematical integer is representable as an `i64`.
pub open spec fn fits_i64(a: int) -> bool {
    -0x8000_0000_0000_0000 <= a <= 0x7fff_ffff_ffff_ffff
}

/// Whether the scaled product of two scalars is representable as an `i64`.
pub open spec fn fx_mul_fits(a: int, b: int) -> bool {
    fits_i64(fx_mul(a, b))
}

/// Rounding toward zero never increases the magnitude of the exact quotient.
pub proof fn lemma_tdiv_mag(a: int, d: int)
    requires
        d > 0,
    ensures
        abs_int(tdiv(a, d)) <= abs_int(a) / d,
{
    if a >= 0 {
        vstd::arithmetic::div_mod::lemma_div_pos_is_pos(a, d);
    } else {
        vstd::arithmetic::div_mod::lemma_div_pos_is_pos(-a, d);
    }
}

/// Bound on a scaled product from bounds on its factors.
pub proof fn lemma_fx_mul_bound(a: int, b: int, ma: int, mb: int)
    requires
        abs_int(a) <= ma,
        abs_int(b) <= mb,
    ensures
        abs_int(fx_mul(a, b)) <= (ma * mb) / (SCALE as int),
{
    assert(abs_int(a * b) <= ma * mb) by (nonlinear_arith)
        requires
            abs_int(a) <= ma,
            abs_int(b) <= mb,
    ;
    lemma_tdiv_mag(a * b, SCALE as int);
    vstd::arithmetic::div_mod::lemma_div_is_ordered(abs_int(a * b), ma * mb, SCALE as int);
}

/// Multiplying by the fixed-point one is the identity.
pub proof fn lemma_fx_mul_one(a: int)
    ensures
        fx_mul(a, SCALE as int) == a,
{
    if a >= 0 {
        vstd::arithmetic::div_mod::lemma_div_multiples_vanish(a, SCALE as int);
    } else {
        vstd::arithmetic::div_mod::lemma_div_multiples_vanish(-a, SCALE as int);
        assert((-a) * (SCALE as int) == -(a * (SCALE as int))) by (nonlinear_arith);
    }
}

/// Multiplying by zero gives zero.
pub proof fn lemma_fx_mul_zero(a: int)
    ensures
        fx_mul(a, 0) == 0,
        fx_mul(0, a) == 0,
{
}

/// Scaled product of two scalars, rounding toward zero.
pub fn fx_mul_exec(a: i64, b: i64) -> (r: i64)
    requires
        fx_mul_fits(a as int, b as int),
    ensures
        r as int == fx_mul(a as int, b as int),
{
    proof {
        assert(abs_int((a as int) * (b as int)) <= 0x8000_0000_0000_0000
            * 0x8000_0000_0000_0000) by (nonlinear_arith)
            requires
                abs_int(a as int) <= 0x8000_0000_0000_0000,
                abs_int(b as int) <= 0x8000_0000_0000_0000,
        ;
    }
    let p: i128 = (a as i128) * (b as i128);
    let q: i128 = if p >= 0 {
        ((p as u128) / 65536) as i128
    } else {
        -((((-p) as u128) / 65536) as i128)
    };
    q as i64
}

/// Numerator scaled up by `SCALE` and divided by a positive integer, rounding
/// toward zero: `x * SCALE / n`.
pub fn scale_div(x: i64, n: u64) -> (r: i64)
    requires
        n > 0,
        fits_i64(tdiv(x as int * (SCALE as int), n as int)),
    ensures
        r as int == tdiv(x as int * (SCALE as int), n as int),
{
    let p: i128 = (x as i128) * 65536;
    let q: i128 = if p >= 0 {
        ((p as u128) / (n as u128)) as i128
    } else {
        -((((-p) as u128) / (n as u128)) as i128)
    };
    q as i64
}

/// Division rounding toward zero leaves a remainder smaller than the divisor.
pub proof fn lemma_tdiv_rem(p: int, d: int)
    requires
        d > 0,
    ensures
        abs_int(p - d * tdiv(p, d)) < d,
{
    if p >= 0 {
        vstd::arithmetic::div_mod::lemma_fundamental_div_mod(p, d);
        vstd::arithmetic::div_mod::lemma_mod_bound(p, d);
    } else {
        vstd::arithmetic::div_mod::lemma_fundamental_div_mod(-p, d);
        vstd::arithmetic::div_mod::lemma_mod_bound(-p, d);
        assert(d * -((-p) / d) == -(d * ((-p) / d))) by (nonlinear_arith);
    }
}

/// Largest integer whose square does not exceed `n`.
pub open spec fn isqrt_spec(n: nat) -> nat
    decreases n,
{
    if n == 0 {
        0
    } else {
        let p = isqrt_spec((n - 1) as nat);
        if (p + 1) * (p + 1) <= n {
            p + 1
        } else {
            p
        }
    }
}

/// `isqrt_spec(n)` is the integer square root: its square is at most `n` and
/// the next square is beyond `n`.
pub proof fn lemma_isqrt_bounds(n: nat)
    ensures
        isqrt_spec(n) * isqrt_spec(n) <= n,
        n < (isqrt_spec(n) + 1) * (isqrt_spec(n) + 1),
    decreases n,
{
    if n == 0 {
        assert(isqrt_spec(n) == 0);
        assert((isqrt_spec(n) + 1) * (isqrt_spec(n) + 1) == 1) by (nonlinear_arith)
            requires
                isqrt_spec(n) == 0,
        ;
    } else {
        lemma_isqrt_bounds((n - 1) as nat);
        let p = isqrt_spec((n - 1) as nat);
        assert(p * p <= n - 1);
        assert(n - 1 < (p + 1) * (p + 1));
        if (p + 1) * (p + 1) <= n {
            assert(isqrt_spec(n) == p + 1);
            assert(n < (p + 2) * (p + 2)) by (nonlinear_arith)
                requires
                    n <= (p + 1) * (p + 1),
                    p >= 0,
            ;
            assert(isqrt_spec(n) * isqrt_spec(n) <= n);
            assert(n < (isqrt_spec(n) + 1) * (isqrt_spec(n) + 1));
        } else {
            assert(isqrt_spec(n) == p);
            assert(isqrt_spec(n) * isqrt_spec(n) <= n);
            assert(n < (isqrt_spec(n) + 1) * (isqrt_spec(n) + 1));
        }
    }
}

/// Any integer within the two square bounds is the integer square root.
pub proof fn lemma_isqrt_unique(n: nat, r: nat)
    requires
        r * r <= n,
        n < (r + 1) * (r + 1),
    ensures
        r == isqrt_spec(n),
{
    lemma_isqrt_bounds(n);
    let s = isqrt_spec(n);
    if r < s {
        assert((r + 1) * (r + 1) <= s * s) by (nonlinear_arith)
            requires
                r + 1 <= s,
        ;
    } else if s < r {
        assert((s + 1) * (s + 1) <= r * r) by (nonlinear_arith)
            requires
                s + 1 <= r,
        ;
    }
}

/// Integer square root by bisection.
pub fn isqrt(n: u128) -> (r: u64)
    ensures
        r as nat == isqrt_spec(n as nat),
        (r as int) * (r as int) <= n as int,
        (n as int) < (r as int + 1) * (r as int + 1),
{
    let mut lo: u128 = 0;
    let mut hi: u128 = 0x1_0000_0000_0000_0000;
    proof {
        assert((hi as int) * (hi as int) > n as int) by (nonlinear_arith)
            requires
                hi as int == 0x1_0000_0000_0000_0000,
                n as int <= 0xffff_ffff_ffff_ffff_ffff_ffff_ffff_ffff,
        ;
    }
    while lo + 1 < hi
        invariant
            lo < hi <= 0x1_0000_0000_0000_0000,
            (lo as int) * (lo as int) <= n as int,
            (n as int) < (hi as int) * (hi as int),
        decreases hi - lo,
    {
        let mid: u128 = lo + (hi - lo) / 2;
        proof {
            assert((mid as int) * (mid as int) <= 0xffff_ffff_ffff_ffff_ffff_ffff_ffff_ffff)
                by (nonlinear_arith)
                requires
                    0 <= mid as int <= 0xffff_ffff_ffff_ffff,
            ;
        }
        if mid * mid <= n {
            lo = mid;
        } else {
            hi = mid;
        }
    }
    proof {
        lemma_isqrt_unique(n as nat, lo as nat);
    }
    lo as u64
}

} // verus!

//! Fixed-point sine and cosine.
//!
//! The angle is a fixed-point scalar in radians. The argument is reduced by
//! symmetry into the first quarter turn and a degree-nine polynomial is
//! evaluated there, all in integer arithmetic. The polynomial runs at a
//! finer internal scale (fifteen guard bits) and the result is rounded to
//! nearest when the guard bits come off, so the returned sine and cosine sit
//! on the closest representable value the series gives. [`spec_sin`] and
//! [`spec_cos`] state the computed values exactly.

use vstd::prelude::*;

use crate::fixed::abs_int;

verus! {

/// Sine polynomial on the first quarter turn, at the guard scale (the real
/// sine times two to the thirty-first): the alternating series through the
/// ninth power, each term rounded toward zero.
pub open spec fn sin_poly(r: int) -> int {
    let r2 = r * r;
    let t1 = r * 32768;
    let t3 = (t1 * r2) / 25769803776;
    let t5 = (t3 * r2) / 85899345920;
    let t7 = (t5 * r2) / 180388626432;
    let t9 = (t7 * r2) / 309237645312;
    t1 - t3 + t5 - t7 + t9
}

/// Cosine polynomial on the first quarter turn, at the guard scale: the
/// alternating series through the eighth power, each term rounded toward
/// zero.
pub open spec fn cos_poly(r: int) -> int {
    let r2 = r * r;
    let t2 = r2 / 4;
    let t4 = (t2 * r2) / 51539607552;
    let t6 = (t4 * r2) / 128849018880;
    let t8 = (t6 * r2) / 240518168576;
    2147483648 - t2 + t4 - t6 + t8
}

/// Removes the fifteen guard bits, rounding to nearest (halves away from
/// zero).
pub open spec fn round_guard(v: int) -> int {
    if v >= 0 {
        (v + 16384) / 32768
    } else {
        -((-v + 16384) / 32768)
    }
}

/// The reduced argument: magnitude of the angle modulo a full turn, folded by
/// half-turn and quarter-turn symmetry into the first quarter turn.
pub open spec fn reduced_arg(a: int) -> int {
    let r0 = abs_int(a) % 411775;
    let r1 = if r0 >= 205887 {
        r0 - 205887
    } else {
        r0
    };
    if r1 > 102944 {
        205887 - r1
    } else {
        r1
    }
}

/// Whether the angle's magnitude falls in the second half turn.
pub open spec fn half_flip(a: int) -> bool {
    abs_int(a) % 411775 >= 205887
}

/// Whether the reduced magnitude falls in the second quarter of its half turn.
pub open spec fn quarter_flip(a: int) -> bool {
    let r0 = abs_int(a) % 411775;
    let r1 = if r0 >= 205887 {
        r0 - 205887
    } else {
        r0
    };
    r1 > 102944
}

/// Fixed-point sine of a fixed-point angle.
#[verifier::opaque]
pub open spec fn spec_sin(a: int) -> int {
    let s0 = round_guard(sin_poly(reduced_arg(a)));
    let s1 = if half_flip(a) {
        -s0
    } else {
        s0
    };
    if a < 0 {
        -s1
    } else {
        s1
    }
}

/// Fixed-point cosine of a fixed-point angle.
#[verifier::opaque]
pub open spec fn spec_cos(a: int) -> int {
    let c0 = round_guard(cos_poly(reduced_arg(a)));
    let c1 = if quarter_flip(a) {
        -c0
    } else {
        c0
    };
    if half_flip(a) {
        -c1
    } else {
        c1
    }
}

/// A product of bounded non-negative integers keeps its quotient bounded.
pub proof fn lemma_mul_div_le(x: int, y: int, mx: int, my: int, d: int)
    requires
        0 <= x <= mx,
        0 <= y <= my,
        d > 0,
    ensures
        0 <= x * y <= mx * my,
        0 <= (x * y) / d <= (mx * my) / d,
{
    assert(x * y <= mx * my && 0 <= x * y) by (nonlinear_arith)
        requires
            0 <= x <= mx,
            0 <= y <= my,
    ;
    vstd::arithmetic::div_mod::lemma_div_is_ordered(x * y, mx * my, d);
    vstd::arithmetic::div_mod::lemma_div_pos_is_pos(x * y, d);
}

/// Removing the guard bits keeps a magnitude bound.
pub proof fn lemma_round_guard_bound(v: int, m: int)
    requires
        abs_int(v) <= m,
    ensures
        abs_int(round_guard(v)) <= (m + 16384) / 32768,
{
    if v >= 0 {
        vstd::arithmetic::div_mod::lemma_div_is_ordered(v + 16384, m + 16384, 32768);
        vstd::arithmetic::div_mod::lemma_div_pos_is_pos(v + 16384, 32768);
    } else {
        vstd::arithmetic::div_mod::lemma_div_is_ordered(-v + 16384, m + 16384, 32768);
        vstd::arithmetic::div_mod::lemma_div_pos_is_pos(-v + 16384, 32768);
    }
}

/// Bounds of the two polynomials on the first quarter turn, at the guard
/// scale.
pub proof fn lemma_poly_bounds(r: int)
    requires
        0 <= r <= 102944,
    ensures
        -1397263328 <= sin_poly(r) <= 3544754583,
        -546687882 <= cos_poly(r) <= 2694215088,
{
    assert(0 <= r * r <= 10597467136) by (nonlinear_arith)
        requires
            0 <= r <= 102944,
    ;
    let r2 = r * r;
    let t1 = r * 32768;
    let t3 = (t1 * r2) / 25769803776;
    let t5 = (t3 * r2) / 85899345920;
    let t7 = (t5 * r2) / 180388626432;
    let t9 = (t7 * r2) / 309237645312;
    lemma_mul_div_le(t1, r2, 3373268992, 10597467136, 25769803776);
    lemma_mul_div_le(t3, r2, 1387209138, 10597467136, 85899345920);
    lemma_mul_div_le(t5, r2, 171141038, 10597467136, 180388626432);
    lemma_mul_div_le(t7, r2, 10054190, 10597467136, 309237645312);
    let t2 = r2 / 4;
    let t4 = (t2 * r2) / 51539607552;
    let t6 = (t4 * r2) / 128849018880;
    let t8 = (t6 * r2) / 240518168576;
    vstd::arithmetic::div_mod::lemma_div_is_ordered(r2, 10597467136, 4);
    vstd::arithmetic::div_mod::lemma_div_pos_is_pos(r2, 4);
    lemma_mul_div_le(t2, r2, 2649366784, 10597467136, 51539607552);
    lemma_mul_div_le(t4, r2, 544757299, 10597467136, 128849018880);
    lemma_mul_div_le(t6, r2, 44804746, 10597467136, 240518168576);
}

/// The reduced argument always lands in the first quarter turn.
pub proof fn lemma_reduced_arg_range(a: int)
    ensures
        0 <= reduced_arg(a) <= 102944,
{
    vstd::arithmetic::div_mod::lemma_mod_bound(abs_int(a), 411775);
}

/// A zero angle has sine zero and cosine one.
pub proof fn lemma_sin_cos_zero()
    ensures
        spec_sin(0) == 0,
        spec_cos(0) == 65536,
{
    reveal(spec_sin);
    reveal(spec_cos);
    vstd::arithmetic::div_mod::lemma_small_mod(0, 411775);
    assert(reduced_arg(0) == 0);
    assert(sin_poly(0) == 0);
    assert(cos_poly(0) == 2147483648);
    assert(round_guard(0) == 0);
    assert(round_guard(2147483648) == 65536);
}

/// Fixed-point sine and cosine of a fixed-point angle in radians.
///
/// The result approximates `SCALE` times the sine and cosine of the real
/// angle, rounded to nearest off the internal guard bits; the contract states
/// the computed value exactly, together with range bounds that keep
/// downstream products small.
pub fn sin_cos_fx(a: i64) -> (r: (i64, i64))
    ensures
        r.0 as int == spec_sin(a as int),
        r.1 as int == spec_cos(a as int),
        abs_int(r.0 as int) <= 108200,
        abs_int(r.1 as int) <= 82300,
{
    let m: u64 = if a >= 0 {
        a as u64
    } else {
        (-(a as i128)) as u64
    };
    let r0: u64 = m % 411775;
    let neg: bool = r0 >= 205887;
    let r1: u64 = if neg {
        r0 - 205887
    } else {
        r0
    };
    let cflip: bool = r1 > 102944;
    let rq: u64 = if cflip {
        205887 - r1
    } else {
        r1
    };
    proof {
        reveal(spec_sin);
        reveal(spec_cos);
        assert(m as int == abs_int(a as int));
        assert(rq as int == reduced_arg(a as int));
        assert(neg == half_flip(a as int));
        assert(cflip == quarter_flip(a as int));
        lemma_poly_bounds(rq as int);
        assert(0 <= rq as int * rq as int <= 10597467136) by (nonlinear_arith)
            requires
                0 <= rq as int <= 102944,
        ;
    }
    let r2: u64 = rq * rq;
    let r2w: u128 = r2 as u128;
    let t1: u128 = (rq as u128) * 32768;
    proof {
        lemma_mul_div_le(t1 as int, r2 as int, 3373268992, 10597467136, 25769803776);
    }
    let t3: u128 = (t1 * r2w) / 25769803776;
    proof {
        lemma_mul_div_le(t3 as int, r2 as int, 1387209138, 10597467136, 85899345920);
    }
    let t5: u128 = (t3 * r2w) / 85899345920;
    proof {
        lemma_mul_div_le(t5 as int, r2 as int, 171141038, 10597467136, 180388626432);
    }
    let t7: u128 = (t5 * r2w) / 180388626432;
    proof {
        lemma_mul_div_le(t7 as int, r2 as int, 10054190, 10597467136, 309237645312);
    }
    let t9: u128 = (t7 * r2w) / 309237645312;
    let sg: i128 = t1 as i128 - t3 as i128 + t5 as i128 - t7 as i128 + t9 as i128;
    let s0: i64 = if sg >= 0 {
        (((sg as u128) + 16384) / 32768) as i64
    } else {
        -(((((-sg) as u128) + 16384) / 32768) as i64)
    };
    let t2: u64 = r2 / 4;
    proof {
        lemma_mul_div_le(t2 as int, r2 as int, 2649366784, 10597467136, 51539607552);
    }
    let t4: u128 = ((t2 as u128) * r2w) / 51539607552;
    proof {
        lemma_mul_div_le(t4 as int, r2 as int, 544757299, 10597467136, 128849018880);
    }
    let t6: u128 = (t4 * r2w) / 128849018880;
    proof {
        lemma_mul_div_le(t6 as int, r2 as int, 44804746, 10597467136, 240518168576);
    }
    let t8: u128 = (t6 * r2w) / 240518168576;
    let cg: i128 = 2147483648 - t2 as i128 + t4 as i128 - t6 as i128 + t8 as i128;
    let c0: i64 = if cg >= 0 {
        (((cg as u128) + 16384) / 32768) as i64
    } else {
        -(((((-cg) as u128) + 16384) / 32768) as i64)
    };
    proof {
        assert(sg as int == sin_poly(rq as int));
        assert(cg as int == cos_poly(rq as int));
        lemma_round_guard_bound(sg as int, 3544754583);
        lemma_round_guard_bound(cg as int, 2694215088);
        assert(s0 as int == round_guard(sin_poly(rq as int)));
        assert(c0 as int == round_guard(cos_poly(rq as int)));
    }
    let c1: i64 = if cflip {
        -c0
    } else {
        c0
    };
    let s2: i64 = if neg {
        -s0
    } else {
        s0
    };
    let c2: i64 = if neg {
        -c1
    } else {
        c1
    };
    let s3: i64 = if a < 0 {
        -s2
    } else {
        s2
    };
    (s3, c2)
}

} // verus!

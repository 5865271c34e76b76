//! Three-component fixed-point vectors and their mathematical model.
//!
//! [`Vec3Fx`] is the executable vector of fixed-point scalars; its view is
//! [`Vec3i`], the same three components as unbounded integers, over which all
//! contracts are stated.

use vstd::prelude::*;

use crate::fixed::{
    abs_int, fits_i64, fx_mul, fx_mul_exec, fx_mul_fits, isqrt, isqrt_spec, lemma_fx_mul_bound,
    lemma_isqrt_bounds, scale_div, tdiv, SCALE,
};

verus! {

/// Mathematical model of a vector: three unbounded integer components, each a
/// fixed-point scalar (the real component times `SCALE`).
pub struct Vec3i {
    pub x: int,
    pub y: int,
    pub z: int,
}

/// An executable vector of three fixed-point scalars.
#[derive(Clone, Copy, Debug, PartialEq, Eq, Structural)]
pub struct Vec3Fx {
    pub x: i64,
    pub y: i64,
    pub z: i64,
}

impl View for Vec3Fx {
    type V = Vec3i;

    open spec fn view(&self) -> Vec3i {
        Vec3i { x: self.x as int, y: self.y as int, z: self.z as int }
    }
}

impl Vec3Fx {
    /// The zero vector.
    pub fn zero() -> (r: Vec3Fx)
        ensures
            r@ == v_zero(),
    {
        Vec3Fx { x: 0, y: 0, z: 0 }
    }

    /// Builds a vector from its three fixed-point components.
    pub fn new(x: i64, y: i64, z: i64) -> (r: Vec3Fx)
        ensures
            r@ == (Vec3i { x: x as int, y: y as int, z: z as int }),
    {
        Vec3Fx { x, y, z }
    }
}

pub open spec fn v_zero() -> Vec3i {
    Vec3i { x: 0, y: 0, z: 0 }
}

/// Componentwise sum.
pub open spec fn v_add(a: Vec3i, b: Vec3i) -> Vec3i {
    Vec3i { x: a.x + b.x, y: a.y + b.y, z: a.z + b.z }
}

/// Every component of the vector has magnitude at most `m`.
pub open spec fn v_bounded(a: Vec3i, m: int) -> bool {
    abs_int(a.x) <= m && abs_int(a.y) <= m && abs_int(a.z) <= m
}

/// Every component of the vector is representable as an `i64`.
pub open spec fn v_fits(a: Vec3i) -> bool {
    fits_i64(a.x) && fits_i64(a.y) && fits_i64(a.z)
}

/// Product of a fixed-point scalar with each component.
pub open spec fn v_scale(k: int, a: Vec3i) -> Vec3i {
    Vec3i { x: fx_mul(k, a.x), y: fx_mul(k, a.y), z: fx_mul(k, a.z) }
}

/// Fixed-point cross product.
pub open spec fn v_cross(a: Vec3i, b: Vec3i) -> Vec3i {
    Vec3i {
        x: fx_mul(a.y, b.z) - fx_mul(a.z, b.y),
        y: fx_mul(a.z, b.x) - fx_mul(a.x, b.z),
        z: fx_mul(a.x, b.y) - fx_mul(a.y, b.x),
    }
}

/// Fixed-point dot product.
pub open spec fn v_dot(a: Vec3i, b: Vec3i) -> int {
    fx_mul(a.x, b.x) + fx_mul(a.y, b.y) + fx_mul(a.z, b.z)
}

/// Sum of the squares of the raw components. For a vector whose components
/// are fixed-point scalars this carries the squared norm at scale
/// `SCALE * SCALE`, so its integer square root is the fixed-point norm.
pub open spec fn norm_sq_raw(a: Vec3i) -> int {
    a.x * a.x + a.y * a.y + a.z * a.z
}

/// Fixed-point norm: integer square root of the raw squared norm.
pub open spec fn v_norm(a: Vec3i) -> int {
    isqrt_spec(norm_sq_raw(a) as nat) as int
}

/// The vector rescaled to (fixed-point) unit length, rounding each component
/// toward zero.
pub open spec fn v_normalize(a: Vec3i) -> Vec3i {
    let n = v_norm(a);
    Vec3i {
        x: tdiv(a.x * (SCALE as int), n),
        y: tdiv(a.y * (SCALE as int), n),
        z: tdiv(a.z * (SCALE as int), n),
    }
}

/// Whether every scaled product and difference of the cross product of two
/// vectors is representable as an `i64`.
pub open spec fn cross_fits(a: Vec3i, b: Vec3i) -> bool {
    &&& fx_mul_fits(a.y, b.z)
    &&& fx_mul_fits(a.z, b.y)
    &&& fx_mul_fits(a.z, b.x)
    &&& fx_mul_fits(a.x, b.z)
    &&& fx_mul_fits(a.x, b.y)
    &&& fx_mul_fits(a.y, b.x)
    &&& v_fits(v_cross(a, b))
}

/// A componentwise bound on two factors bounds their cross product and
/// every intermediate value it is computed from.
pub proof fn lemma_cross_bound(a: Vec3i, b: Vec3i, ma: int, mb: int)
    requires
        v_bounded(a, ma),
        v_bounded(b, mb),
        2 * ((ma * mb) / (SCALE as int)) <= 0x7fff_ffff_ffff_ffff,
    ensures
        cross_fits(a, b),
        v_bounded(v_cross(a, b), 2 * ((ma * mb) / (SCALE as int))),
{
    lemma_fx_mul_bound(a.y, b.z, ma, mb);
    lemma_fx_mul_bound(a.z, b.y, ma, mb);
    lemma_fx_mul_bound(a.z, b.x, ma, mb);
    lemma_fx_mul_bound(a.x, b.z, ma, mb);
    lemma_fx_mul_bound(a.x, b.y, ma, mb);
    lemma_fx_mul_bound(a.y, b.x, ma, mb);
}

/// Whether every scaled product and partial sum of a dot product is
/// representable as an `i64`.
pub open spec fn dot_fits(a: Vec3i, b: Vec3i) -> bool {
    &&& fx_mul_fits(a.x, b.x)
    &&& fx_mul_fits(a.y, b.y)
    &&& fx_mul_fits(a.z, b.z)
    &&& fits_i64(fx_mul(a.x, b.x) + fx_mul(a.y, b.y))
    &&& fits_i64(v_dot(a, b))
}

/// Componentwise bound on a dot product, and representability of its pieces.
pub proof fn lemma_dot_bound(a: Vec3i, b: Vec3i, ma: int, mb: int)
    requires
        v_bounded(a, ma),
        v_bounded(b, mb),
        3 * ((ma * mb) / (SCALE as int)) <= 0x7fff_ffff_ffff_ffff,
    ensures
        abs_int(v_dot(a, b)) <= 3 * ((ma * mb) / (SCALE as int)),
        dot_fits(a, b),
{
    lemma_fx_mul_bound(a.x, b.x, ma, mb);
    lemma_fx_mul_bound(a.y, b.y, ma, mb);
    lemma_fx_mul_bound(a.z, b.z, ma, mb);
}

/// Componentwise bound on a scaled vector, and representability of its
/// components.
pub proof fn lemma_scale_bound(k: int, a: Vec3i, mk: int, ma: int)
    requires
        abs_int(k) <= mk,
        v_bounded(a, ma),
        (mk * ma) / (SCALE as int) <= 0x7fff_ffff_ffff_ffff,
    ensures
        v_bounded(v_scale(k, a), (mk * ma) / (SCALE as int)),
        fx_mul_fits(k, a.x),
        fx_mul_fits(k, a.y),
        fx_mul_fits(k, a.z),
{
    lemma_fx_mul_bound(k, a.x, mk, ma);
    lemma_fx_mul_bound(k, a.y, mk, ma);
    lemma_fx_mul_bound(k, a.z, mk, ma);
}

/// Componentwise vector sum.
pub fn add_exec(a: &Vec3Fx, b: &Vec3Fx) -> (r: Vec3Fx)
    requires
        v_fits(v_add(a@, b@)),
    ensures
        r@ == v_add(a@, b@),
{
    Vec3Fx { x: a.x + b.x, y: a.y + b.y, z: a.z + b.z }
}

/// Vector scaled by a fixed-point scalar.
pub fn scale_exec(k: i64, a: &Vec3Fx) -> (r: Vec3Fx)
    requires
        fx_mul_fits(k as int, a@.x),
        fx_mul_fits(k as int, a@.y),
        fx_mul_fits(k as int, a@.z),
    ensures
        r@ == v_scale(k as int, a@),
{
    Vec3Fx { x: fx_mul_exec(k, a.x), y: fx_mul_exec(k, a.y), z: fx_mul_exec(k, a.z) }
}

/// Fixed-point cross product.
pub fn cross_exec(a: &Vec3Fx, b: &Vec3Fx) -> (r: Vec3Fx)
    requires
        cross_fits(a@, b@),
    ensures
        r@ == v_cross(a@, b@),
{
    Vec3Fx {
        x: fx_mul_exec(a.y, b.z) - fx_mul_exec(a.z, b.y),
        y: fx_mul_exec(a.z, b.x) - fx_mul_exec(a.x, b.z),
        z: fx_mul_exec(a.x, b.y) - fx_mul_exec(a.y, b.x),
    }
}

/// Fixed-point dot product.
pub fn dot_exec(a: &Vec3Fx, b: &Vec3Fx) -> (r: i64)
    requires
        dot_fits(a@, b@),
    ensures
        r as int == v_dot(a@, b@),
{
    fx_mul_exec(a.x, b.x) + fx_mul_exec(a.y, b.y) + fx_mul_exec(a.z, b.z)
}

/// No component of a vector exceeds the vector's norm in magnitude.
pub proof fn lemma_component_le_norm(v: Vec3i)
    ensures
        abs_int(v.x) <= v_norm(v),
        abs_int(v.y) <= v_norm(v),
        abs_int(v.z) <= v_norm(v),
{
    let nsq = norm_sq_raw(v);
    assert(v.x * v.x >= 0 && v.y * v.y >= 0 && v.z * v.z >= 0) by (nonlinear_arith);
    lemma_isqrt_bounds(nsq as nat);
    let n = isqrt_spec(nsq as nat) as int;
    lemma_component_square(v.x, n, nsq);
    lemma_component_square(v.y, n, nsq);
    lemma_component_square(v.z, n, nsq);
}

/// If a square exceeds the largest square within `nsq`, the squared value
/// exceeds the root bound.
proof fn lemma_component_square(c: int, n: int, nsq: int)
    requires
        n >= 0,
        c * c <= nsq,
        nsq < (n + 1) * (n + 1),
    ensures
        abs_int(c) <= n,
{
    if abs_int(c) > n {
        assert((n + 1) * (n + 1) <= c * c) by (nonlinear_arith)
            requires
                abs_int(c) >= n + 1,
                n >= 0,
        ;
    }
}

/// The vector rescaled to unit length. The result's components carry the
/// direction of the input at fixed-point scale, each of magnitude at most
/// `SCALE`.
pub fn normalize_exec(v: &Vec3Fx) -> (r: Vec3Fx)
    requires
        v_bounded(v@, 0x1000_0000_0000_0000),
        norm_sq_raw(v@) > 0,
    ensures
        r@ == v_normalize(v@),
        v_bounded(r@, SCALE as int),
{
    proof {
        assert(v@.x * v@.x <= 0x1000_0000_0000_0000 * 0x1000_0000_0000_0000
            && v@.x * v@.x >= 0) by (nonlinear_arith)
            requires
                abs_int(v@.x) <= 0x1000_0000_0000_0000,
        ;
        assert(v@.y * v@.y <= 0x1000_0000_0000_0000 * 0x1000_0000_0000_0000
            && v@.y * v@.y >= 0) by (nonlinear_arith)
            requires
                abs_int(v@.y) <= 0x1000_0000_0000_0000,
        ;
        assert(v@.z * v@.z <= 0x1000_0000_0000_0000 * 0x1000_0000_0000_0000
            && v@.z * v@.z >= 0) by (nonlinear_arith)
            requires
                abs_int(v@.z) <= 0x1000_0000_0000_0000,
        ;
    }
    let sx: u128 = ((v.x as i128) * (v.x as i128)) as u128;
    let sy: u128 = ((v.y as i128) * (v.y as i128)) as u128;
    let sz: u128 = ((v.z as i128) * (v.z as i128)) as u128;
    let nsq: u128 = sx + sy + sz;
    let n: u64 = isqrt(nsq);
    proof {
        assert(nsq as int == norm_sq_raw(v@));
        assert(n as int == v_norm(v@));
        if n == 0 {
            assert((n as int + 1) * (n as int + 1) == 1) by (nonlinear_arith)
                requires
                    n as int == 0,
            ;
        }
        lemma_component_le_norm(v@);
        lemma_norm_div_unit(v@.x, n as int);
        lemma_norm_div_unit(v@.y, n as int);
        lemma_norm_div_unit(v@.z, n as int);
    }
    Vec3Fx { x: scale_div(v.x, n), y: scale_div(v.y, n), z: scale_div(v.z, n) }
}

/// Dividing a scaled component by a norm at least as large keeps the result
/// within one fixed-point unit.
proof fn lemma_norm_div_unit(c: int, n: int)
    requires
        n >= 1,
        abs_int(c) <= n,
    ensures
        abs_int(tdiv(c * (SCALE as int), n)) <= SCALE as int,
{
    crate::fixed::lemma_tdiv_mag(c * (SCALE as int), n);
    assert(abs_int(c * (SCALE as int)) == abs_int(c) * (SCALE as int)) by (nonlinear_arith);
    vstd::arithmetic::mul::lemma_mul_inequality(abs_int(c), n, SCALE as int);
    vstd::arithmetic::div_mod::lemma_div_is_ordered(
        abs_int(c) * (SCALE as int),
        n * (SCALE as int),
        n,
    );
    vstd::arithmetic::div_mod::lemma_div_multiples_vanish(SCALE as int, n);
}


/// The normalized vector stays within one fixed-point unit per component.
pub proof fn lemma_normalize_bounded(v: Vec3i)
    requires
        norm_sq_raw(v) > 0,
    ensures
        v_bounded(v_normalize(v), SCALE as int),
{
    assert(v.x * v.x >= 0 && v.y * v.y >= 0 && v.z * v.z >= 0) by (nonlinear_arith);
    lemma_isqrt_bounds(norm_sq_raw(v) as nat);
    let n = v_norm(v);
    if n == 0 {
        assert((n + 1) * (n + 1) == 1) by (nonlinear_arith)
            requires
                n == 0,
        ;
    }
    lemma_component_le_norm(v);
    lemma_norm_div_unit(v.x, n);
    lemma_norm_div_unit(v.y, n);
    lemma_norm_div_unit(v.z, n);
}

/// One floor-division step: the scaled component falls short of the next
/// multiple of the norm.
proof fn lemma_floor_step(c: int, n: int)
    requires
        n >= 1,
    ensures
        abs_int(c) * (SCALE as int) < (abs_int(tdiv(c * (SCALE as int), n)) + 1) * n,
{
    let m = abs_int(c) * (SCALE as int);
    assert(abs_int(tdiv(c * (SCALE as int), n)) == m / n);
    vstd::arithmetic::div_mod::lemma_fundamental_div_mod(m, n);
    vstd::arithmetic::div_mod::lemma_mod_bound(m, n);
    assert(n * (m / n) + n == (m / n + 1) * n) by (nonlinear_arith);
}

/// The normalized vector is unit length to within four fixed-point steps from
/// below: its squared fixed-point norm falls short of one by at most six
/// units of the scale (and three), so its length is at least `SCALE - 4`.
pub proof fn lemma_normalize_norm_lower(v: Vec3i)
    requires
        norm_sq_raw(v) > 0,
    ensures
        norm_sq_raw(v_normalize(v)) >= 4294574077,
{
    assert(v.x * v.x >= 0 && v.y * v.y >= 0 && v.z * v.z >= 0) by (nonlinear_arith);
    lemma_isqrt_bounds(norm_sq_raw(v) as nat);
    let nsq = norm_sq_raw(v);
    let n = v_norm(v);
    if n == 0 {
        assert((n + 1) * (n + 1) == 1) by (nonlinear_arith)
            requires
                n == 0,
        ;
    }
    lemma_normalize_bounded(v);
    let q = v_normalize(v);
    lemma_floor_step(v.x, n);
    lemma_floor_step(v.y, n);
    lemma_floor_step(v.z, n);
    let bx = abs_int(q.x) + 1;
    let by = abs_int(q.y) + 1;
    let bz = abs_int(q.z) + 1;
    // squared per component: the scaled square is below the norm-multiple's square
    assert(v.x * v.x * 4294967296 <= (bx * bx) * (n * n)) by (nonlinear_arith)
        requires
            abs_int(v.x) * 65536 < bx * n,
            n >= 1,
            bx >= 1,
    ;
    assert(v.y * v.y * 4294967296 <= (by * by) * (n * n)) by (nonlinear_arith)
        requires
            abs_int(v.y) * 65536 < by * n,
            n >= 1,
            by >= 1,
    ;
    assert(v.z * v.z * 4294967296 <= (bz * bz) * (n * n)) by (nonlinear_arith)
        requires
            abs_int(v.z) * 65536 < bz * n,
            n >= 1,
            bz >= 1,
    ;
    // summed and compared against the norm's own square
    let t = bx * bx + by * by + bz * bz;
    assert((bx * bx) * (n * n) + (by * by) * (n * n) + (bz * bz) * (n * n) == t * (n * n))
        by (nonlinear_arith)
        requires
            t == bx * bx + by * by + bz * bz,
    ;
    assert(4294967296 * (n * n) <= t * (n * n)) by (nonlinear_arith)
        requires
            v.x * v.x * 4294967296 <= (bx * bx) * (n * n),
            v.y * v.y * 4294967296 <= (by * by) * (n * n),
            v.z * v.z * 4294967296 <= (bz * bz) * (n * n),
            n * n <= v.x * v.x + v.y * v.y + v.z * v.z,
            (bx * bx) * (n * n) + (by * by) * (n * n) + (bz * bz) * (n * n) == t * (n * n),
    ;
    // divided through by the square of the norm
    assert(4294967296 <= t) by (nonlinear_arith)
        requires
            4294967296 * (n * n) <= t * (n * n),
            n >= 1,
    ;
    // expand the three squares and drop the cross terms by the unit bound
    assert(bx * bx == q.x * q.x + 2 * abs_int(q.x) + 1) by (nonlinear_arith)
        requires
            bx == abs_int(q.x) + 1,
    ;
    assert(by * by == q.y * q.y + 2 * abs_int(q.y) + 1) by (nonlinear_arith)
        requires
            by == abs_int(q.y) + 1,
    ;
    assert(bz * bz == q.z * q.z + 2 * abs_int(q.z) + 1) by (nonlinear_arith)
        requires
            bz == abs_int(q.z) + 1,
    ;
}


/// One floor-division step from below: the rescaled component times the norm
/// stays within the scaled component.
proof fn lemma_floor_low(c: int, n: int)
    requires
        n >= 1,
    ensures
        abs_int(tdiv(c * (SCALE as int), n)) * n <= abs_int(c) * (SCALE as int),
{
    let m = abs_int(c) * (SCALE as int);
    assert(abs_int(tdiv(c * (SCALE as int), n)) == m / n);
    vstd::arithmetic::div_mod::lemma_fundamental_div_mod(m, n);
    vstd::arithmetic::div_mod::lemma_mod_bound(m, n);
    assert((m / n) * n == n * (m / n)) by (nonlinear_arith);
}

/// A vector of at least unit length normalizes to within one fixed-point step
/// of unit length from above: the squared fixed-point norm of the result is
/// at most `(SCALE + 1) * (SCALE + 1)`.
pub proof fn lemma_normalize_norm_upper(v: Vec3i)
    requires
        v_norm(v) >= 65536,
    ensures
        norm_sq_raw(v_normalize(v)) <= 4295098369,
{
    assert(v.x * v.x >= 0 && v.y * v.y >= 0 && v.z * v.z >= 0) by (nonlinear_arith);
    lemma_isqrt_bounds(norm_sq_raw(v) as nat);
    let nsq = norm_sq_raw(v);
    let n = v_norm(v);
    let q = v_normalize(v);
    lemma_floor_low(v.x, n);
    lemma_floor_low(v.y, n);
    lemma_floor_low(v.z, n);
    let ax = abs_int(q.x);
    let ay = abs_int(q.y);
    let az = abs_int(q.z);
    assert(q.x * q.x * (n * n) <= v.x * v.x * 4294967296) by (nonlinear_arith)
        requires
            ax * n <= abs_int(v.x) * 65536,
            ax == abs_int(q.x),
            n >= 1,
    ;
    assert(q.y * q.y * (n * n) <= v.y * v.y * 4294967296) by (nonlinear_arith)
        requires
            ay * n <= abs_int(v.y) * 65536,
            ay == abs_int(q.y),
            n >= 1,
    ;
    assert(q.z * q.z * (n * n) <= v.z * v.z * 4294967296) by (nonlinear_arith)
        requires
            az * n <= abs_int(v.z) * 65536,
            az == abs_int(q.z),
            n >= 1,
    ;
    if norm_sq_raw(q) > 4295098369 {
        let t = q.x * q.x + q.y * q.y + q.z * q.z;
        assert(t * (n * n) <= nsq * 4294967296) by (nonlinear_arith)
            requires
                q.x * q.x * (n * n) <= v.x * v.x * 4294967296,
                q.y * q.y * (n * n) <= v.y * v.y * 4294967296,
                q.z * q.z * (n * n) <= v.z * v.z * 4294967296,
                t == q.x * q.x + q.y * q.y + q.z * q.z,
                nsq == v.x * v.x + v.y * v.y + v.z * v.z,
        ;
        assert(4295098370 * (n * n) <= t * (n * n)) by (nonlinear_arith)
            requires
                t >= 4295098370,
                n >= 1,
        ;
        assert(nsq * 4294967296 <= ((n + 1) * (n + 1) - 1) * 4294967296) by (nonlinear_arith)
            requires
                nsq <= (n + 1) * (n + 1) - 1,
        ;
        assert(((n + 1) * (n + 1) - 1) * 4294967296 < 4295098370 * (n * n)) by (nonlinear_arith)
            requires
                n >= 65536,
        ;
    }
}

} // verus!

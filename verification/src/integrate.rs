//! Rotation and translation integration.
//!
//! Once per frame, a camera's basis is re-orthonormalized, the fused intent's
//! translation is mapped through the corrected basis into world space and
//! added to the position, and the rotation intent is applied as three
//! sequential axis-local rotations: yaw about up, pitch about the updated
//! right, roll about the updated forward. No renormalization happens after
//! rotating; the drift this leaves is corrected at the start of the next
//! frame's update.

use vstd::prelude::*;

use crate::components::DebugCamera;
use crate::fixed::{
    abs_int, fits_i64, fx_mul, fx_mul_exec, fx_mul_fits, lemma_fx_mul_bound, lemma_fx_mul_one,
    lemma_fx_mul_zero,
};
use crate::fusion::{fuse_input, spec_fuse, GamepadSnapshot, InputIntent, KeySnapshot, MouseDelta,
    mouse_ok, pad_ok};
use crate::resources::{DebugCameraActive, GamepadBindings, KeyboardBindings};
use crate::trig::{lemma_sin_cos_zero, sin_cos_fx, spec_cos, spec_sin};
use crate::vec3::{
    add_exec, cross_exec, cross_fits, dot_exec, dot_fits, lemma_cross_bound, lemma_dot_bound,
    lemma_normalize_bounded, lemma_normalize_norm_lower, lemma_normalize_norm_upper,
    lemma_scale_bound, norm_sq_raw, normalize_exec, scale_exec, v_add, v_bounded, v_cross, v_dot,
    v_fits, v_norm, v_normalize, v_scale, v_zero, Vec3Fx, Vec3i,
};

verus! {

/// The orthonormalized triple derived from a forward/up pair: the cross
/// product gives a right vector, up is re-derived orthogonal to forward,
/// forward is re-derived from the new up and right (forward wins
/// disagreements between the two inputs), both are rescaled to unit length,
/// and right is recomputed from the corrected pair.
pub open spec fn spec_orthonormalize(f: Vec3i, u: Vec3i) -> (Vec3i, Vec3i, Vec3i) {
    let r0 = v_cross(f, u);
    let u1 = v_cross(r0, f);
    let f1 = v_cross(u1, r0);
    let u2 = v_normalize(u1);
    let f2 = v_normalize(f1);
    let r2 = v_cross(f2, u2);
    (f2, u2, r2)
}

/// Precondition of orthonormalization: the pair is componentwise bounded and
/// neither derived vector collapses to zero. A zero or colinear forward/up
/// pair violates this; there is no recovery vector, so it is a caller
/// contract, not a runtime case.
pub open spec fn ortho_pre(f: Vec3i, u: Vec3i) -> bool {
    let r0 = v_cross(f, u);
    let u1 = v_cross(r0, f);
    let f1 = v_cross(u1, r0);
    &&& v_bounded(f, 16777216)
    &&& v_bounded(u, 16777216)
    &&& norm_sq_raw(u1) > 0
    &&& norm_sq_raw(f1) > 0
}

/// Orthonormalizes a possibly skewed forward/up pair into a right-handed
/// triple (forward, up, right), each component of the two unit vectors within
/// one fixed-point unit.
pub fn orthonormalize(f: &Vec3Fx, u: &Vec3Fx) -> (r: (Vec3Fx, Vec3Fx, Vec3Fx))
    requires
        ortho_pre(f@, u@),
    ensures
        (r.0@, r.1@, r.2@) == spec_orthonormalize(f@, u@),
        v_bounded(r.0@, 65536),
        v_bounded(r.1@, 65536),
        v_bounded(r.2@, 131072),
{
    proof {
        lemma_cross_bound(f@, u@, 16777216, 16777216);
    }
    let r0 = cross_exec(f, u);
    proof {
        lemma_cross_bound(r0@, f@, 8589934592, 16777216);
    }
    let u1 = cross_exec(&r0, f);
    proof {
        lemma_cross_bound(u1@, r0@, 4398046511104, 8589934592);
    }
    let f1 = cross_exec(&u1, &r0);
    let u2 = normalize_exec(&u1);
    let f2 = normalize_exec(&f1);
    proof {
        lemma_cross_bound(f2@, u2@, 65536, 65536);
    }
    let r2 = cross_exec(&f2, &u2);
    (f2, u2, r2)
}

/// The unit-length half of the orthonormality invariant, in integers: both
/// corrected vectors are unit length to within four fixed-point steps from
/// below (squared fixed-point norm at least `SCALE * SCALE - 6 * SCALE - 3`),
/// no component exceeds one unit, and whenever the vector being rescaled was
/// itself at least unit length, the result is also within one step of unit
/// length from above.
pub proof fn lemma_orthonormal_unit(f: Vec3i, u: Vec3i)
    requires
        ortho_pre(f, u),
    ensures
        ({
            let o = spec_orthonormalize(f, u);
            let r0 = v_cross(f, u);
            let u1 = v_cross(r0, f);
            let f1 = v_cross(u1, r0);
            &&& norm_sq_raw(o.0) >= 4294574077
            &&& norm_sq_raw(o.1) >= 4294574077
            &&& v_bounded(o.0, 65536)
            &&& v_bounded(o.1, 65536)
            &&& v_norm(f1) >= 65536 ==> norm_sq_raw(o.0) <= 4295098369
            &&& v_norm(u1) >= 65536 ==> norm_sq_raw(o.1) <= 4295098369
        }),
{
    let r0 = v_cross(f, u);
    let u1 = v_cross(r0, f);
    let f1 = v_cross(u1, r0);
    lemma_normalize_norm_lower(u1);
    lemma_normalize_norm_lower(f1);
    lemma_normalize_bounded(u1);
    lemma_normalize_bounded(f1);
    if v_norm(f1) >= 65536 {
        lemma_normalize_norm_upper(f1);
    }
    if v_norm(u1) >= 65536 {
        lemma_normalize_norm_upper(u1);
    }
}


/// Core of the perpendicularity bound: rescaling a rounded cross product and
/// the vector it was crossed from leaves their fixed-point dot product within
/// fifteen steps, provided the rounded cross product kept at least unit
/// length. Before rounding, the cross product is exactly orthogonal to its
/// first factor; the bound collects the rounding remainders around that
/// identity.
#[verifier::rlimit(100)]
#[verifier::spinoff_prover]
proof fn lemma_cross_dot_small(u1: Vec3i, r0: Vec3i)
    requires
        norm_sq_raw(u1) > 0,
        v_norm(v_cross(u1, r0)) >= 65536,
    ensures
        abs_int(v_dot(v_normalize(v_cross(u1, r0)), v_normalize(u1))) <= 15,
{
    let f1 = v_cross(u1, r0);
    let nf = v_norm(f1);
    let nu = v_norm(u1);
    let f2 = v_normalize(f1);
    let u2 = v_normalize(u1);
    // norms are positive
    assert(u1.x * u1.x >= 0 && u1.y * u1.y >= 0 && u1.z * u1.z >= 0) by (nonlinear_arith);
    crate::fixed::lemma_isqrt_bounds(norm_sq_raw(u1) as nat);
    crate::fixed::lemma_isqrt_bounds(norm_sq_raw(f1) as nat);
    if nu == 0 {
        assert((nu + 1) * (nu + 1) == 1) by (nonlinear_arith)
            requires
                nu == 0,
        ;
    }
    crate::vec3::lemma_component_le_norm(u1);
    crate::vec3::lemma_component_le_norm(f1);
    // before rounding, the cross product is orthogonal to its first factor
    let ex = u1.y * r0.z - u1.z * r0.y;
    let ey = u1.z * r0.x - u1.x * r0.z;
    let ez = u1.x * r0.y - u1.y * r0.x;
    assert(ex * u1.x + ey * u1.y + ez * u1.z == 0) by (nonlinear_arith)
        requires
            ex == u1.y * r0.z - u1.z * r0.y,
            ey == u1.z * r0.x - u1.x * r0.z,
            ez == u1.x * r0.y - u1.y * r0.x,
    ;
    // rounding gaps of the cross product, under two steps each
    crate::fixed::lemma_tdiv_rem(u1.y * r0.z, 65536);
    crate::fixed::lemma_tdiv_rem(u1.z * r0.y, 65536);
    crate::fixed::lemma_tdiv_rem(u1.z * r0.x, 65536);
    crate::fixed::lemma_tdiv_rem(u1.x * r0.z, 65536);
    crate::fixed::lemma_tdiv_rem(u1.x * r0.y, 65536);
    crate::fixed::lemma_tdiv_rem(u1.y * r0.x, 65536);
    let dx = ex - 65536 * f1.x;
    let dy = ey - 65536 * f1.y;
    let dz = ez - 65536 * f1.z;
    assert(abs_int(dx) <= 131070 && abs_int(dy) <= 131070 && abs_int(dz) <= 131070);
    // the raw dot of the rounded forward with up carries only the gaps
    let big_f = f1.x * u1.x + f1.y * u1.y + f1.z * u1.z;
    assert(65536 * (f1.x * u1.x) == ex * u1.x - dx * u1.x) by (nonlinear_arith)
        requires
            65536 * f1.x == ex - dx,
    ;
    assert(65536 * (f1.y * u1.y) == ey * u1.y - dy * u1.y) by (nonlinear_arith)
        requires
            65536 * f1.y == ey - dy,
    ;
    assert(65536 * (f1.z * u1.z) == ez * u1.z - dz * u1.z) by (nonlinear_arith)
        requires
            65536 * f1.z == ez - dz,
    ;
    assert(abs_int(dx * u1.x) <= 131070 * nu) by (nonlinear_arith)
        requires
            abs_int(dx) <= 131070,
            abs_int(u1.x) <= nu,
    ;
    assert(abs_int(dy * u1.y) <= 131070 * nu) by (nonlinear_arith)
        requires
            abs_int(dy) <= 131070,
            abs_int(u1.y) <= nu,
    ;
    assert(abs_int(dz * u1.z) <= 131070 * nu) by (nonlinear_arith)
        requires
            abs_int(dz) <= 131070,
            abs_int(u1.z) <= nu,
    ;
    assert(abs_int(65536 * big_f) <= 393210 * nu);
    // rescaling gaps, under one norm each
    crate::fixed::lemma_tdiv_rem(f1.x * 65536, nf);
    crate::fixed::lemma_tdiv_rem(f1.y * 65536, nf);
    crate::fixed::lemma_tdiv_rem(f1.z * 65536, nf);
    crate::fixed::lemma_tdiv_rem(u1.x * 65536, nu);
    crate::fixed::lemma_tdiv_rem(u1.y * 65536, nu);
    crate::fixed::lemma_tdiv_rem(u1.z * 65536, nu);
    let rx = f1.x * 65536 - nf * f2.x;
    let ry = f1.y * 65536 - nf * f2.y;
    let rz = f1.z * 65536 - nf * f2.z;
    let sx = u1.x * 65536 - nu * u2.x;
    let sy = u1.y * 65536 - nu * u2.y;
    let sz = u1.z * 65536 - nu * u2.z;
    assert(abs_int(rx) < nf && abs_int(ry) < nf && abs_int(rz) < nf);
    assert(abs_int(sx) < nu && abs_int(sy) < nu && abs_int(sz) < nu);
    // the product of the rescaled pair, expanded over the gaps
    assert((f2.x * u2.x) * (nf * nu) == 4294967296 * (f1.x * u1.x) - 65536 * (f1.x * sx) - 65536
        * (u1.x * rx) + rx * sx) by (nonlinear_arith)
        requires
            nf * f2.x == 65536 * f1.x - rx,
            nu * u2.x == 65536 * u1.x - sx,
    ;
    assert((f2.y * u2.y) * (nf * nu) == 4294967296 * (f1.y * u1.y) - 65536 * (f1.y * sy) - 65536
        * (u1.y * ry) + ry * sy) by (nonlinear_arith)
        requires
            nf * f2.y == 65536 * f1.y - ry,
            nu * u2.y == 65536 * u1.y - sy,
    ;
    assert((f2.z * u2.z) * (nf * nu) == 4294967296 * (f1.z * u1.z) - 65536 * (f1.z * sz) - 65536
        * (u1.z * rz) + rz * sz) by (nonlinear_arith)
        requires
            nf * f2.z == 65536 * f1.z - rz,
            nu * u2.z == 65536 * u1.z - sz,
    ;
    let raw = f2.x * u2.x + f2.y * u2.y + f2.z * u2.z;
    assert(raw * (nf * nu) == (f2.x * u2.x) * (nf * nu) + (f2.y * u2.y) * (nf * nu) + (f2.z
        * u2.z) * (nf * nu)) by (nonlinear_arith)
        requires
            raw == f2.x * u2.x + f2.y * u2.y + f2.z * u2.z,
    ;
    // bounds of the four groups
    assert(abs_int(4294967296 * big_f) <= 25769607168 * nu);
    assert(25769607168 * nu <= 393213 * (nf * nu)) by (nonlinear_arith)
        requires
            nf >= 65536,
            nu >= 0,
    ;
    assert(abs_int(f1.x * sx) <= nf * nu) by (nonlinear_arith)
        requires
            abs_int(f1.x) <= nf,
            abs_int(sx) <= nu,
    ;
    assert(abs_int(f1.y * sy) <= nf * nu) by (nonlinear_arith)
        requires
            abs_int(f1.y) <= nf,
            abs_int(sy) <= nu,
    ;
    assert(abs_int(f1.z * sz) <= nf * nu) by (nonlinear_arith)
        requires
            abs_int(f1.z) <= nf,
            abs_int(sz) <= nu,
    ;
    assert(abs_int(u1.x * rx) <= nf * nu) by (nonlinear_arith)
        requires
            abs_int(u1.x) <= nu,
            abs_int(rx) <= nf,
    ;
    assert(abs_int(u1.y * ry) <= nf * nu) by (nonlinear_arith)
        requires
            abs_int(u1.y) <= nu,
            abs_int(ry) <= nf,
    ;
    assert(abs_int(u1.z * rz) <= nf * nu) by (nonlinear_arith)
        requires
            abs_int(u1.z) <= nu,
            abs_int(rz) <= nf,
    ;
    assert(abs_int(rx * sx) <= nf * nu) by (nonlinear_arith)
        requires
            abs_int(rx) <= nf,
            abs_int(sx) <= nu,
    ;
    assert(abs_int(ry * sy) <= nf * nu) by (nonlinear_arith)
        requires
            abs_int(ry) <= nf,
            abs_int(sy) <= nu,
    ;
    assert(abs_int(rz * sz) <= nf * nu) by (nonlinear_arith)
        requires
            abs_int(rz) <= nf,
            abs_int(sz) <= nu,
    ;
    assert(abs_int(raw * (nf * nu)) <= 786432 * (nf * nu));
    // cancel the positive norms
    assert(nf * nu >= 1) by (nonlinear_arith)
        requires
            nf >= 1,
            nu >= 1,
    ;
    assert(abs_int(raw) <= 786432) by (nonlinear_arith)
        requires
            abs_int(raw * (nf * nu)) <= 786432 * (nf * nu),
            nf * nu >= 1,
    ;
    // the scaled dot differs from the raw products by one step per component
    crate::fixed::lemma_tdiv_rem(f2.x * u2.x, 65536);
    crate::fixed::lemma_tdiv_rem(f2.y * u2.y, 65536);
    crate::fixed::lemma_tdiv_rem(f2.z * u2.z, 65536);
    assert(abs_int(65536 * v_dot(f2, u2)) <= 983037);
}


/// The perpendicularity half of the orthonormality invariant, in integers:
/// whenever the re-derived forward kept at least unit length before its
/// rescaling, the fixed-point dot product of the corrected forward and up is
/// at most fifteen fixed-point steps in magnitude (about 2.3e-4 of a unit).
pub proof fn lemma_orthonormal_dot(f: Vec3i, u: Vec3i)
    requires
        ortho_pre(f, u),
        v_norm(v_cross(v_cross(v_cross(f, u), f), v_cross(f, u))) >= 65536,
    ensures
        ({
            let o = spec_orthonormalize(f, u);
            abs_int(v_dot(o.0, o.1)) <= 15
        }),
{
    let r0 = v_cross(f, u);
    let u1 = v_cross(r0, f);
    lemma_cross_dot_small(u1, r0);
}

/// One axis-local rotation by an angle given through its fixed-point sine and
/// cosine: the rotated vector is `v*cos + (axis x v)*sin +
/// axis*(axis . v)*(1 - cos)`, every product scaled and rounded as
/// [`fx_mul`] states. For a unit axis this is the quaternion rotation of `v`
/// about `axis`.
#[verifier::opaque]
pub open spec fn spec_rotate(v: Vec3i, axis: Vec3i, s: int, c: int) -> Vec3i {
    let vc = v_scale(c, v);
    let cx = v_scale(s, v_cross(axis, v));
    let m = fx_mul(v_dot(axis, v), 65536 - c);
    v_add(v_add(vc, cx), v_scale(m, axis))
}

/// Whether every product and sum inside one rotation step is representable
/// as an `i64`.
#[verifier::opaque]
pub open spec fn rotate_fits(v: Vec3i, axis: Vec3i, s: int, c: int) -> bool {
    let cr = v_cross(axis, v);
    let m = fx_mul(v_dot(axis, v), 65536 - c);
    let vc = v_scale(c, v);
    let cx = v_scale(s, cr);
    &&& fx_mul_fits(c, v.x)
    &&& fx_mul_fits(c, v.y)
    &&& fx_mul_fits(c, v.z)
    &&& cross_fits(axis, v)
    &&& fx_mul_fits(s, cr.x)
    &&& fx_mul_fits(s, cr.y)
    &&& fx_mul_fits(s, cr.z)
    &&& dot_fits(axis, v)
    &&& fits_i64(65536 - c)
    &&& fx_mul_fits(v_dot(axis, v), 65536 - c)
    &&& fx_mul_fits(m, axis.x)
    &&& fx_mul_fits(m, axis.y)
    &&& fx_mul_fits(m, axis.z)
    &&& v_fits(v_add(vc, cx))
    &&& v_fits(v_add(v_add(vc, cx), v_scale(m, axis)))
}

/// Componentwise bound of a rotation step's result, as a function of the
/// bounds of the rotated vector (`mv`) and the axis (`ma`), for a sine within
/// 110000 and a cosine within 82300.
#[verifier::opaque]
pub open spec fn rot_bound(mv: int, ma: int) -> int {
    let cb = 2 * ((ma * mv) / 65536);
    let db = 3 * ((ma * mv) / 65536);
    let mb = (db * 148000) / 65536;
    (mv * 82300) / 65536 + (cb * 110000) / 65536 + (ma * mb) / 65536
}

/// Scaling a non-negative integer by a factor of at least one fixed-point
/// unit does not shrink it.
proof fn lemma_scaled_ge(x: int, f: int)
    requires
        0 <= x,
        65536 <= f,
    ensures
        x <= (x * f) / 65536,
{
    vstd::arithmetic::mul::lemma_mul_inequality(65536, f, x);
    vstd::arithmetic::div_mod::lemma_div_is_ordered(65536 * x, x * f, 65536);
    vstd::arithmetic::div_mod::lemma_div_multiples_vanish(x, 65536);
}

/// Bounded inputs keep one rotation step free of overflow, and bound its
/// result by [`rot_bound`].
#[verifier::rlimit(100)]
pub proof fn lemma_rotate_props(v: Vec3i, axis: Vec3i, s: int, c: int, mv: int, ma: int)
    requires
        v_bounded(v, mv),
        v_bounded(axis, ma),
        abs_int(s) <= 110000,
        abs_int(c) <= 82300,
        65536 <= mv,
        65536 <= ma,
        rot_bound(mv, ma) <= 0x7fff_ffff_ffff_ffff,
    ensures
        rotate_fits(v, axis, s, c),
        v_bounded(spec_rotate(v, axis, s, c), rot_bound(mv, ma)),
{
    reveal(spec_rotate);
    reveal(rotate_fits);
    reveal(rot_bound);
    let cb = 2 * ((ma * mv) / 65536);
    let db = 3 * ((ma * mv) / 65536);
    let mb = (db * 148000) / 65536;
    let t1b = (mv * 82300) / 65536;
    let scb = (cb * 110000) / 65536;
    let t3b = (ma * mb) / 65536;
    assert(0 <= ma * mv) by (nonlinear_arith)
        requires
            0 <= ma,
            0 <= mv,
    ;
    vstd::arithmetic::div_mod::lemma_div_pos_is_pos(ma * mv, 65536);
    lemma_scaled_ge(mv, 82300);
    vstd::arithmetic::div_mod::lemma_div_pos_is_pos(mv * 82300, 65536);
    lemma_scaled_ge(cb, 110000);
    vstd::arithmetic::div_mod::lemma_div_pos_is_pos(cb * 110000, 65536);
    assert(0 <= db * 148000);
    vstd::arithmetic::div_mod::lemma_div_pos_is_pos(db * 148000, 65536);
    lemma_scaled_ge(db, 148000);
    assert(mb == (db * 148000) / 65536);
    lemma_scaled_ge(mb, ma);
    assert(t3b == (mb * ma) / 65536) by {
        vstd::arithmetic::mul::lemma_mul_is_commutative(ma, mb);
    }
    vstd::arithmetic::div_mod::lemma_div_pos_is_pos(mb * ma, 65536);
    // every partial bound sits under the total, which fits
    assert(t1b <= rot_bound(mv, ma));
    assert(scb <= rot_bound(mv, ma));
    assert(t3b <= rot_bound(mv, ma));
    assert(cb <= scb);
    assert(db <= mb);
    assert(mb <= t3b);
    // v * cos
    lemma_fx_mul_bound(c, v.x, 82300, mv);
    lemma_fx_mul_bound(c, v.y, 82300, mv);
    lemma_fx_mul_bound(c, v.z, 82300, mv);
    assert(82300 * mv == mv * 82300);
    // (axis x v) * sin
    lemma_cross_bound(axis, v, ma, mv);
    let cr = v_cross(axis, v);
    lemma_fx_mul_bound(s, cr.x, 110000, cb);
    lemma_fx_mul_bound(s, cr.y, 110000, cb);
    lemma_fx_mul_bound(s, cr.z, 110000, cb);
    assert(110000 * cb == cb * 110000);
    // axis * ((axis . v) * (1 - cos))
    lemma_dot_bound(axis, v, ma, mv);
    let d = v_dot(axis, v);
    lemma_fx_mul_bound(d, 65536 - c, db, 148000);
    let m = fx_mul(d, 65536 - c);
    lemma_fx_mul_bound(m, axis.x, mb, ma);
    lemma_fx_mul_bound(m, axis.y, mb, ma);
    lemma_fx_mul_bound(m, axis.z, mb, ma);
}

/// One axis-local rotation step (see [`spec_rotate`]).
pub fn rotate_about(v: &Vec3Fx, axis: &Vec3Fx, s: i64, c: i64) -> (r: Vec3Fx)
    requires
        rotate_fits(v@, axis@, s as int, c as int),
    ensures
        r@ == spec_rotate(v@, axis@, s as int, c as int),
{
    proof {
        reveal(spec_rotate);
        reveal(rotate_fits);
    }
    let vc = scale_exec(c, v);
    let cr = cross_exec(axis, v);
    let cx = scale_exec(s, &cr);
    let d = dot_exec(axis, v);
    let m = fx_mul_exec(d, 65536 - c);
    let ax = scale_exec(m, axis);
    add_exec(&add_exec(&vc, &cx), &ax)
}

/// Rotating by a zero angle (sine zero, cosine one) returns the vector
/// unchanged.
pub proof fn lemma_rotate_identity(v: Vec3i, axis: Vec3i)
    ensures
        spec_rotate(v, axis, 0, 65536) == v,
{
    reveal(spec_rotate);
    lemma_fx_mul_one(v.x);
    lemma_fx_mul_one(v.y);
    lemma_fx_mul_one(v.z);
    assert(65536 * v.x == v.x * 65536);
    assert(65536 * v.y == v.y * 65536);
    assert(65536 * v.z == v.z * 65536);
    let cr = v_cross(axis, v);
    lemma_fx_mul_zero(cr.x);
    lemma_fx_mul_zero(cr.y);
    lemma_fx_mul_zero(cr.z);
    lemma_fx_mul_zero(v_dot(axis, v));
    lemma_fx_mul_zero(axis.x);
    lemma_fx_mul_zero(axis.y);
    lemma_fx_mul_zero(axis.z);
}

/// The full frame update of one camera: orthonormalize the basis, translate
/// the position by the intent mapped through the corrected basis and scaled
/// by the translation speed, then rotate forward and up by the three
/// axis-local steps (yaw about up, pitch about the updated right, roll about
/// the updated forward), each angle being the intent component times the
/// rotation speed. Returns the new forward, up and position.
pub open spec fn spec_movement(
    fwd: Vec3i,
    up: Vec3i,
    pos: Vec3i,
    st: int,
    sr: int,
    t: Vec3i,
    rot: Vec3i,
) -> (Vec3i, Vec3i, Vec3i) {
    let ortho = spec_orthonormalize(fwd, up);
    let fu = spec_rotations(ortho.0, ortho.1, ortho.2, sr, rot);
    (fu.0, fu.1, spec_translate(pos, st, t, ortho.0, ortho.1, ortho.2))
}

/// The translation of one frame: the intent mapped through the corrected
/// basis (columns forward, up, right) into world space, scaled by the
/// translation speed, added to the position.
pub open spec fn spec_translate(
    pos: Vec3i,
    st: int,
    t: Vec3i,
    f0: Vec3i,
    u0: Vec3i,
    r0: Vec3i,
) -> Vec3i {
    let world = v_add(v_add(v_scale(t.x, f0), v_scale(t.y, u0)), v_scale(t.z, r0));
    v_add(pos, v_scale(st, world))
}

/// The three axis-local rotation steps of one frame, applied to an
/// orthonormalized basis: yaw about up (rotating forward and right), pitch
/// about the updated right (rotating forward and up), roll about the updated
/// forward (rotating up). Each angle is the intent component times the
/// rotation speed. Returns the new forward and up.
pub open spec fn spec_rotations(f0: Vec3i, u0: Vec3i, r0: Vec3i, sr: int, rot: Vec3i) -> (
    Vec3i,
    Vec3i,
) {
    let a1 = fx_mul(rot.x, sr);
    let f1 = spec_rotate(f0, u0, spec_sin(a1), spec_cos(a1));
    let r1 = spec_rotate(r0, u0, spec_sin(a1), spec_cos(a1));
    let a2 = fx_mul(rot.y, sr);
    let f2 = spec_rotate(f1, r1, spec_sin(a2), spec_cos(a2));
    let u2 = spec_rotate(u0, r1, spec_sin(a2), spec_cos(a2));
    let a3 = fx_mul(rot.z, sr);
    let u3 = spec_rotate(u2, f2, spec_sin(a3), spec_cos(a3));
    (f2, u3)
}

/// Machine bounds under which one frame update is free of overflow: a valid
/// basis, position within a quarter of the representable range, speeds within
/// 1024 units (or radians) per second, intent components within a megaunit.
pub open spec fn movement_pre(cam: DebugCamera, intent: InputIntent) -> bool {
    &&& ortho_pre(cam.fwd@, cam.up@)
    &&& v_bounded(cam.position@, 0x2000_0000_0000_0000)
    &&& abs_int(cam.speed_translate as int) <= 67108864
    &&& abs_int(cam.speed_rotate as int) <= 67108864
    &&& v_bounded(intent.translate@, 68719476736)
    &&& v_bounded(intent.rotate@, 68719476736)
}

/// Applies one frame's translation (see [`spec_translate`]).
fn apply_translation(
    pos: &Vec3Fx,
    st: i64,
    t: &Vec3Fx,
    f0: &Vec3Fx,
    u0: &Vec3Fx,
    r0: &Vec3Fx,
) -> (r: Vec3Fx)
    requires
        v_bounded(pos@, 0x2000_0000_0000_0000),
        abs_int(st as int) <= 67108864,
        v_bounded(t@, 68719476736),
        v_bounded(f0@, 65536),
        v_bounded(u0@, 65536),
        v_bounded(r0@, 131072),
    ensures
        r@ == spec_translate(pos@, st as int, t@, f0@, u0@, r0@),
{
    proof {
        lemma_scale_bound(t@.x, f0@, 68719476736, 65536);
        lemma_scale_bound(t@.y, u0@, 68719476736, 65536);
        lemma_scale_bound(t@.z, r0@, 68719476736, 131072);
    }
    let wx = scale_exec(t.x, f0);
    let wy = scale_exec(t.y, u0);
    let wz = scale_exec(t.z, r0);
    let world = add_exec(&add_exec(&wx, &wy), &wz);
    proof {
        lemma_scale_bound(st as int, world@, 67108864, 274877906944);
    }
    let delta = scale_exec(st, &world);
    add_exec(pos, &delta)
}

/// The concrete bound chain of the three rotation steps, starting from an
/// orthonormalized basis (unit vectors within one fixed-point unit, right
/// within two).
proof fn lemma_chain_bounds()
    ensures
        rot_bound(65536, 65536) == 746300,
        rot_bound(131072, 65536) == 1492600,
        rot_bound(746300, 1492600) == 2680664536,
        rot_bound(65536, 1492600) == 235401362,
        rot_bound(235401362, 2680664536) == 2668347259755674322,
{
    reveal(rot_bound);
    vstd::arithmetic::div_mod::lemma_fundamental_div_mod_converse(4294967296, 65536, 65536, 0);
    vstd::arithmetic::div_mod::lemma_fundamental_div_mod_converse(29097984000, 65536, 444000, 0);
    vstd::arithmetic::div_mod::lemma_fundamental_div_mod_converse(5393612800, 65536, 82300, 0);
    vstd::arithmetic::div_mod::lemma_fundamental_div_mod_converse(14417920000, 65536, 220000, 0);
    vstd::arithmetic::div_mod::lemma_fundamental_div_mod_converse(8589934592, 65536, 131072, 0);
    vstd::arithmetic::div_mod::lemma_fundamental_div_mod_converse(58195968000, 65536, 888000, 0);
    vstd::arithmetic::div_mod::lemma_fundamental_div_mod_converse(10787225600, 65536, 164600, 0);
    vstd::arithmetic::div_mod::lemma_fundamental_div_mod_converse(28835840000, 65536, 440000, 0);
    vstd::arithmetic::div_mod::lemma_fundamental_div_mod_converse(1113927380000, 65536, 16997182, 60448);
    vstd::arithmetic::div_mod::lemma_fundamental_div_mod_converse(7546748808000, 65536, 115154248, 11072);
    vstd::arithmetic::div_mod::lemma_fundamental_div_mod_converse(61420490000, 65536, 937202, 19728);
    vstd::arithmetic::div_mod::lemma_fundamental_div_mod_converse(3739380040000, 65536, 57058411, 16704);
    vstd::arithmetic::div_mod::lemma_fundamental_div_mod_converse(171879230564800, 65536, 2622668923, 27072);
    vstd::arithmetic::div_mod::lemma_fundamental_div_mod_converse(97819033600, 65536, 1492600, 0);
    vstd::arithmetic::div_mod::lemma_fundamental_div_mod_converse(662714400000, 65536, 10112219, 15616);
    vstd::arithmetic::div_mod::lemma_fundamental_div_mod_converse(328372000000, 65536, 5010559, 5376);
    vstd::arithmetic::div_mod::lemma_fundamental_div_mod_converse(15093498079400, 65536, 230308503, 26792);
    vstd::arithmetic::div_mod::lemma_fundamental_div_mod_converse(631032082839498032, 65536, 9628785443717, 60720);
    vstd::arithmetic::div_mod::lemma_fundamental_div_mod_converse(4275180737010348000, 65536, 65234081070104, 12256);
    vstd::arithmetic::div_mod::lemma_fundamental_div_mod_converse(19373532092600, 65536, 295616639, 39096);
    vstd::arithmetic::div_mod::lemma_fundamental_div_mod_converse(2118332797617740000, 65536, 32323193323024, 39136);
    vstd::arithmetic::div_mod::lemma_fundamental_div_mod_converse(174870687663176722631744, 65536, 2668314936266734659, 19520);
}

/// Applies one frame's three rotation steps (see [`spec_rotations`]).
#[verifier::rlimit(100)]
fn apply_rotations(f0: &Vec3Fx, u0: &Vec3Fx, r0: &Vec3Fx, sr: i64, rot: &Vec3Fx) -> (r: (
    Vec3Fx,
    Vec3Fx,
))
    requires
        v_bounded(f0@, 65536),
        v_bounded(u0@, 65536),
        v_bounded(r0@, 131072),
        abs_int(sr as int) <= 67108864,
        v_bounded(rot@, 68719476736),
    ensures
        (r.0@, r.1@) == spec_rotations(f0@, u0@, r0@, sr as int, rot@),
{
    proof {
        lemma_fx_mul_bound(rot@.x, sr as int, 68719476736, 67108864);
        lemma_fx_mul_bound(rot@.y, sr as int, 68719476736, 67108864);
        lemma_fx_mul_bound(rot@.z, sr as int, 68719476736, 67108864);
    }
    let a1 = fx_mul_exec(rot.x, sr);
    let sc1 = sin_cos_fx(a1);
    proof {
        lemma_chain_bounds();
        lemma_rotate_props(f0@, u0@, sc1.0 as int, sc1.1 as int, 65536, 65536);
        lemma_rotate_props(r0@, u0@, sc1.0 as int, sc1.1 as int, 131072, 65536);
    }
    let f1 = rotate_about(f0, u0, sc1.0, sc1.1);
    let r1 = rotate_about(r0, u0, sc1.0, sc1.1);
    let a2 = fx_mul_exec(rot.y, sr);
    let sc2 = sin_cos_fx(a2);
    proof {
        lemma_rotate_props(f1@, r1@, sc2.0 as int, sc2.1 as int, 746300, 1492600);
        lemma_rotate_props(u0@, r1@, sc2.0 as int, sc2.1 as int, 65536, 1492600);
    }
    let f2 = rotate_about(&f1, &r1, sc2.0, sc2.1);
    let u2 = rotate_about(u0, &r1, sc2.0, sc2.1);
    let a3 = fx_mul_exec(rot.z, sr);
    let sc3 = sin_cos_fx(a3);
    proof {
        lemma_rotate_props(u2@, f2@, sc3.0 as int, sc3.1 as int, 235401362, 2680664536);
    }
    let u3 = rotate_about(&u2, &f2, sc3.0, sc3.1);
    (f2, u3)
}

/// Applies one frame's fused intent to one camera (see [`spec_movement`]).
pub fn camera_movement(cam: &mut DebugCamera, intent: &InputIntent)
    requires
        movement_pre(*old(cam), *intent),
    ensures
        ({
            let r = spec_movement(
                old(cam).fwd@,
                old(cam).up@,
                old(cam).position@,
                old(cam).speed_translate as int,
                old(cam).speed_rotate as int,
                intent.translate@,
                intent.rotate@,
            );
            final(cam).fwd@ == r.0 && final(cam).up@ == r.1 && final(cam).position@ == r.2
        }),
        final(cam).speed_translate == old(cam).speed_translate,
        final(cam).speed_rotate == old(cam).speed_rotate,
{
    let ortho = orthonormalize(&cam.fwd, &cam.up);
    let f0 = ortho.0;
    let u0 = ortho.1;
    let r0 = ortho.2;
    cam.position = apply_translation(
        &cam.position,
        cam.speed_translate,
        &intent.translate,
        &f0,
        &u0,
        &r0,
    );
    let fu = apply_rotations(&f0, &u0, &r0, cam.speed_rotate, &intent.rotate);
    cam.fwd = fu.0;
    cam.up = fu.1;
}


/// Applying integration with a zero intent leaves the position unchanged and
/// replaces forward and up by exactly their orthonormalized correction.
pub proof fn lemma_zero_intent_noop(fwd: Vec3i, up: Vec3i, pos: Vec3i, st: int, sr: int)
    ensures
        ({
            let o = spec_orthonormalize(fwd, up);
            let r = spec_movement(fwd, up, pos, st, sr, v_zero(), v_zero());
            r.0 == o.0 && r.1 == o.1 && r.2 == pos
        }),
{
    let o = spec_orthonormalize(fwd, up);
    let f0 = o.0;
    let u0 = o.1;
    let r0 = o.2;
    // zero intent scales to a zero world-space translation
    lemma_fx_mul_zero(f0.x);
    lemma_fx_mul_zero(f0.y);
    lemma_fx_mul_zero(f0.z);
    lemma_fx_mul_zero(u0.x);
    lemma_fx_mul_zero(u0.y);
    lemma_fx_mul_zero(u0.z);
    lemma_fx_mul_zero(r0.x);
    lemma_fx_mul_zero(r0.y);
    lemma_fx_mul_zero(r0.z);
    lemma_fx_mul_zero(st);
    // zero angles rotate nothing
    lemma_fx_mul_zero(sr);
    lemma_sin_cos_zero();
    lemma_rotate_identity(f0, u0);
    lemma_rotate_identity(r0, u0);
    lemma_rotate_identity(f0, r0);
    lemma_rotate_identity(u0, r0);
    lemma_rotate_identity(u0, f0);
}

/// Whether a raw squared norm is positive: exactly when some component is
/// non-zero.
proof fn lemma_norm_sq_pos(v: Vec3i)
    ensures
        (norm_sq_raw(v) > 0) <==> !(v.x == 0 && v.y == 0 && v.z == 0),
{
    assert(v.x * v.x >= 0 && v.y * v.y >= 0 && v.z * v.z >= 0) by (nonlinear_arith);
    assert(v.x != 0 ==> v.x * v.x > 0) by (nonlinear_arith);
    assert(v.y != 0 ==> v.y * v.y > 0) by (nonlinear_arith);
    assert(v.z != 0 ==> v.z * v.z > 0) by (nonlinear_arith);
}

/// Decides whether a forward/up pair is a valid basis for orthonormalization:
/// non-zero, non-colinear, and not so small that the derived vectors collapse.
/// Hosts should validate camera bases with this at construction time.
pub fn basis_valid(fwd: &Vec3Fx, up: &Vec3Fx) -> (r: bool)
    requires
        v_bounded(fwd@, 16777216),
        v_bounded(up@, 16777216),
    ensures
        r == ortho_pre(fwd@, up@),
{
    proof {
        lemma_cross_bound(fwd@, up@, 16777216, 16777216);
    }
    let r0 = cross_exec(fwd, up);
    proof {
        lemma_cross_bound(r0@, fwd@, 8589934592, 16777216);
    }
    let u1 = cross_exec(&r0, fwd);
    proof {
        lemma_cross_bound(u1@, r0@, 4398046511104, 8589934592);
        lemma_norm_sq_pos(u1@);
    }
    let f1 = cross_exec(&u1, &r0);
    proof {
        lemma_norm_sq_pos(f1@);
    }
    let u1_nonzero = !(u1.x == 0 && u1.y == 0 && u1.z == 0);
    let f1_nonzero = !(f1.x == 0 && f1.y == 0 && f1.z == 0);
    u1_nonzero && f1_nonzero
}

/// Runs input fusion and movement integration for one camera, as the host
/// calls it once per frame. If neither device class is active the camera is
/// left untouched (its basis is then not corrected either).
pub fn camera_movement_system(
    cam: &mut DebugCamera,
    active: &DebugCameraActive,
    kb: &KeyboardBindings,
    gb: &GamepadBindings,
    keys: &KeySnapshot,
    mouse: &Vec<MouseDelta>,
    pad: &Option<GamepadSnapshot>,
    dt: i64,
)
    requires
        0 <= dt <= 1048576,
        mouse_ok(mouse@),
        pad_ok(*pad),
        active.gamepad || active.keymouse ==> ortho_pre(old(cam).fwd@, old(cam).up@)
            && v_bounded(old(cam).position@, 0x2000_0000_0000_0000)
            && abs_int(old(cam).speed_translate as int) <= 67108864
            && abs_int(old(cam).speed_rotate as int) <= 67108864,
    ensures
        !(active.gamepad || active.keymouse) ==> *final(cam) == *old(cam),
        active.gamepad || active.keymouse ==> ({
            let intent = spec_fuse(*active, *kb, *gb, *keys, mouse@, *pad, dt as int);
            let r = spec_movement(
                old(cam).fwd@,
                old(cam).up@,
                old(cam).position@,
                old(cam).speed_translate as int,
                old(cam).speed_rotate as int,
                intent.0,
                intent.1,
            );
            final(cam).fwd@ == r.0 && final(cam).up@ == r.1 && final(cam).position@ == r.2
                && final(cam).speed_translate == old(cam).speed_translate
                && final(cam).speed_rotate == old(cam).speed_rotate
        }),
{
    if !(active.gamepad || active.keymouse) {
        return ;
    }
    let intent = fuse_input(active, kb, gb, keys, mouse, pad, dt);
    camera_movement(cam, &intent);
}

/// A renderer-facing look-at pose: eye point, look target, and up hint.
#[derive(Clone, Copy, Debug, PartialEq, Eq, Structural)]
pub struct LookAt {
    pub eye: Vec3Fx,
    pub target: Vec3Fx,
    pub up: Vec3Fx,
}

/// Projects a camera's pose into a look-at transform: eye at the position,
/// target one forward vector ahead, up as the up hint. Returns nothing when
/// both device classes are inactive, so a host can take over the transform.
pub fn camera_update_system(cam: &DebugCamera, active: &DebugCameraActive) -> (r: Option<LookAt>)
    requires
        v_fits(v_add(cam.position@, cam.fwd@)),
    ensures
        match r {
            Some(t) => (active.gamepad || active.keymouse) && t.eye == cam.position && t.target@
                == v_add(cam.position@, cam.fwd@) && t.up == cam.up,
            None => !(active.gamepad || active.keymouse),
        },
{
    if active.gamepad || active.keymouse {
        let target = add_exec(&cam.position, &cam.fwd);
        Some(LookAt { eye: cam.position, target, up: cam.up })
    } else {
        None
    }
}

} // verus!

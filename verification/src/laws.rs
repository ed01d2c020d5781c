//! Library-level laws: exactness of the cross product on orthonormal bases,
//! round-trip behaviour of invertible transforms, and the shape of the gamma
//! curve.

use vstd::prelude::*;

use vstd::arithmetic::div_mod::{
    lemma_div_is_ordered, lemma_div_multiples_vanish, lemma_fundamental_div_mod,
};

use crate::fx::{
    div_floor, fx_div_s, fx_mul_s, fx_ok, icbrt_s, isqrt_s, lemma_icbrt_bounds,
    lemma_icbrt_monotone, lemma_icbrt_unique, lemma_isqrt_bounds, lemma_isqrt_monotone,
    lemma_isqrt_unique, FX_ONE,
};
use crate::scene::{srgb_gamma_s, SRGB_INPUT_CAP, SRGB_LINEAR_LIMIT};
use crate::transform::{inverse_s, transform_s, Transform};
use crate::vector::{v_cross_s, vec_ok, Vector3};

verus! {

/// The exact (unrounded) integer dot product of the raw components.
pub open spec fn raw_dot(a: Vector3, b: Vector3) -> int {
    a.x as int * b.x as int + a.y as int * b.y as int + a.z as int * b.z as int
}

/// The exact (unrounded) scalar triple product `c . (a x b)` of the raw
/// components.
pub open spec fn raw_triple(a: Vector3, b: Vector3, c: Vector3) -> int {
    c.x as int * (a.y as int * b.z as int - a.z as int * b.y as int) + c.y as int * (
    a.z as int * b.x as int - a.x as int * b.z as int) + c.z as int * (a.x as int * b.y as int
        - a.y as int * b.x as int)
}

/// Lagrange's identity in three dimensions: the squared raw cross product
/// equals the product of the squared raw norms minus the squared raw dot
/// product.
#[verifier::rlimit(100)]
proof fn lemma_lagrange(ax: int, ay: int, az: int, bx: int, by: int, bz: int)
    ensures
        (ay * bz - az * by) * (ay * bz - az * by) + (az * bx - ax * bz) * (az * bx - ax * bz) + (
        ax * by - ay * bx) * (ax * by - ay * bx) == (ax * ax + ay * ay + az * az) * (bx * bx + by
            * by + bz * bz) - (ax * bx + ay * by + az * bz) * (ax * bx + ay * by + az * bz),
{
    broadcast use vstd::arithmetic::mul::group_mul_is_commutative_and_distributive,
        vstd::arithmetic::mul::lemma_mul_is_associative;

}

/// Expansion of the squared raw norm of the difference `s c - v`.
#[verifier::rlimit(100)]
proof fn lemma_diff_norm(s: int, cx: int, cy: int, cz: int, vx: int, vy: int, vz: int)
    ensures
        (s * cx - vx) * (s * cx - vx) + (s * cy - vy) * (s * cy - vy) + (s * cz - vz) * (s * cz
            - vz) == s * s * (cx * cx + cy * cy + cz * cz) - 2 * (s * (cx * vx + cy * vy + cz
            * vz)) + (vx * vx + vy * vy + vz * vz),
{
    broadcast use vstd::arithmetic::mul::group_mul_is_commutative_and_distributive,
        vstd::arithmetic::mul::lemma_mul_is_associative;

}

/// The cyclic symmetry of the raw triple product.
#[verifier::rlimit(100)]
proof fn lemma_triple_cyclic(a: Vector3, b: Vector3, c: Vector3)
    ensures
        raw_triple(b, c, a) == raw_triple(a, b, c),
        raw_triple(c, a, b) == raw_triple(a, b, c),
{
    broadcast use vstd::arithmetic::mul::group_mul_is_commutative_and_distributive,
        vstd::arithmetic::mul::lemma_mul_is_associative;

}

/// A product of two values known individually is known.
proof fn lemma_mul_known(x: int, y: int, a: int, b: int, p: int)
    requires
        x == a,
        y == b,
        a * b == p,
    ensures
        x * y == p,
{
}

/// Two exactly unit, exactly orthogonal vectors have an exact cross product:
/// when `c` is exactly unit and completes them right-handedly (the raw
/// triple product is `FX_ONE` cubed), the computed cross product of `a` and
/// `b` is exactly `c` — the single rounding step in each component divides
/// evenly.
#[verifier::rlimit(100)]
proof fn lemma_cross_of_orthonormal_pair(a: Vector3, b: Vector3, c: Vector3)
    requires
        vec_ok(a),
        vec_ok(b),
        vec_ok(c),
        raw_dot(a, a) == FX_ONE * FX_ONE,
        raw_dot(b, b) == FX_ONE * FX_ONE,
        raw_dot(c, c) == FX_ONE * FX_ONE,
        raw_dot(a, b) == 0,
        raw_triple(a, b, c) == FX_ONE * FX_ONE * FX_ONE,
    ensures
        v_cross_s(a, b) == c,
{
    let ax = a.x as int;
    let ay = a.y as int;
    let az = a.z as int;
    let bx = b.x as int;
    let by = b.y as int;
    let bz = b.z as int;
    let cx = c.x as int;
    let cy = c.y as int;
    let cz = c.z as int;
    let vx = ay * bz - az * by;
    let vy = az * bx - ax * bz;
    let vz = ax * by - ay * bx;
    let s = FX_ONE as int;

    // Pin down the powers of the scale that the hypotheses mention.
    lemma_mul_known(FX_ONE as int, FX_ONE as int, 65536, 65536, 4294967296);
    lemma_mul_known(FX_ONE * FX_ONE, FX_ONE as int, 4294967296, 65536, 281474976710656);

    // Lagrange's identity: the raw cross product has raw squared norm
    // |a|^2 |b|^2 - (a . b)^2, which the hypotheses make FX_ONE^4.
    lemma_lagrange(ax, ay, az, bx, by, bz);
    lemma_mul_known(
        ax * ax + ay * ay + az * az,
        bx * bx + by * by + bz * bz,
        4294967296,
        4294967296,
        18446744073709551616,
    );
    lemma_mul_known(ax * bx + ay * by + az * bz, ax * bx + ay * by + az * bz, 0, 0, 0);
    assert(vx * vx + vy * vy + vz * vz == 18446744073709551616);

    // The difference w = s c - v has raw squared norm zero, so it vanishes.
    let wx = s * cx - vx;
    let wy = s * cy - vy;
    let wz = s * cz - vz;
    lemma_diff_norm(s, cx, cy, cz, vx, vy, vz);
    assert(cx * vx + cy * vy + cz * vz == raw_triple(a, b, c));
    lemma_mul_known(s, s, 65536, 65536, 4294967296);
    lemma_mul_known(s * s, cx * cx + cy * cy + cz * cz, 4294967296, 4294967296,
        18446744073709551616);
    lemma_mul_known(s, cx * vx + cy * vy + cz * vz, 65536, 281474976710656,
        18446744073709551616);
    assert(wx * wx + wy * wy + wz * wz == 0);
    assert(wx == 0 && wy == 0 && wz == 0) by (nonlinear_arith)
        requires
            wx * wx + wy * wy + wz * wz == 0,
    ;

    // Each computed component divides the scale evenly.
    lemma_div_multiples_vanish(cx, s);
    lemma_div_multiples_vanish(cy, s);
    lemma_div_multiples_vanish(cz, s);
    assert(div_floor(vx, s) == cx);
    assert(div_floor(vy, s) == cy);
    assert(div_floor(vz, s) == cz);
}

/// For all vectors `a`, `b`, `c` that form an exactly right-handed
/// orthonormal basis at fixed-point scale — each exactly unit in the raw
/// sense, pairwise exactly orthogonal, and with raw triple product `FX_ONE`
/// cubed — the computed cross products satisfy `a x b == c`, `b x c == a`
/// and `c x a == b` exactly.
pub proof fn lemma_cross_right_handed_basis(a: Vector3, b: Vector3, c: Vector3)
    requires
        vec_ok(a),
        vec_ok(b),
        vec_ok(c),
        raw_dot(a, a) == FX_ONE * FX_ONE,
        raw_dot(b, b) == FX_ONE * FX_ONE,
        raw_dot(c, c) == FX_ONE * FX_ONE,
        raw_dot(a, b) == 0,
        raw_dot(b, c) == 0,
        raw_dot(a, c) == 0,
        raw_triple(a, b, c) == FX_ONE * FX_ONE * FX_ONE,
    ensures
        v_cross_s(a, b) == c,
        v_cross_s(b, c) == a,
        v_cross_s(c, a) == b,
{
    lemma_triple_cyclic(a, b, c);
    lemma_cross_of_orthonormal_pair(a, b, c);
    lemma_cross_of_orthonormal_pair(b, c, a);
    lemma_cross_of_orthonormal_pair(c, a, b);
}

/// Applying a translation and then its inverse restores the original point
/// exactly, whenever the translated point itself stays representable.
pub proof fn lemma_translate_round_trip(d: Vector3, p: Vector3)
    requires
        vec_ok(d),
        vec_ok(p),
        fx_ok(p.x + d.x),
        fx_ok(p.y + d.y),
        fx_ok(p.z + d.z),
    ensures
        transform_s(inverse_s(Transform::Translate(d)), transform_s(Transform::Translate(d), p))
            == p,
{
}

/// Applying a scale and then its inverse restores the original point
/// exactly, whenever the reciprocal scale is exact (each component times its
/// reciprocal gives exactly one) and the scaled point is exactly
/// representable (each raw product is a multiple of the unit and in range).
pub proof fn lemma_scale_round_trip(s: Vector3, p: Vector3)
    requires
        vec_ok(s),
        vec_ok(p),
        s.x as int * fx_div_s(FX_ONE as int, s.x as int) == FX_ONE * FX_ONE,
        s.y as int * fx_div_s(FX_ONE as int, s.y as int) == FX_ONE * FX_ONE,
        s.z as int * fx_div_s(FX_ONE as int, s.z as int) == FX_ONE * FX_ONE,
        (p.x as int * s.x as int) % (FX_ONE as int) == 0,
        (p.y as int * s.y as int) % (FX_ONE as int) == 0,
        (p.z as int * s.z as int) % (FX_ONE as int) == 0,
        fx_ok(div_floor(p.x as int * s.x as int, FX_ONE as int)),
        fx_ok(div_floor(p.y as int * s.y as int, FX_ONE as int)),
        fx_ok(div_floor(p.z as int * s.z as int, FX_ONE as int)),
    ensures
        transform_s(inverse_s(Transform::Scale(s)), transform_s(Transform::Scale(s), p)) == p,
{
    lemma_scale_component(p.x as int, s.x as int);
    lemma_scale_component(p.y as int, s.y as int);
    lemma_scale_component(p.z as int, s.z as int);
}

/// One component of the scale round trip.
proof fn lemma_scale_component(px: int, sx: int)
    requires
        fx_ok(px),
        fx_ok(sx),
        sx * fx_div_s(FX_ONE as int, sx) == FX_ONE * FX_ONE,
        (px * sx) % (FX_ONE as int) == 0,
        fx_ok(div_floor(px * sx, FX_ONE as int)),
    ensures
        fx_mul_s(fx_mul_s(px, sx), fx_div_s(FX_ONE as int, sx)) == px,
{
    let unit = FX_ONE as int;
    let ix = fx_div_s(unit, sx);
    let q = div_floor(px * sx, unit);
    assert(sx != 0) by {
        if sx == 0 {
            assert(sx * ix == 0) by (nonlinear_arith)
                requires
                    sx == 0,
            ;
        }
    };
    lemma_fundamental_div_mod(px * sx, unit);
    assert(q * unit == px * sx) by (nonlinear_arith)
        requires
            px * sx == unit * q + 0,
    ;
    assert(q * ix == px * unit) by (nonlinear_arith)
        requires
            q * unit == px * sx,
            sx * ix == unit * unit,
            sx != 0,
            unit == 65536,
    ;
    lemma_div_multiples_vanish(px, unit);
    assert(px * unit == unit * px) by (nonlinear_arith);
    assert(div_floor(q * ix, unit) == px);
}

/// The gamma curve fixes black: encoding zero gives zero.
pub proof fn lemma_srgb_gamma_zero()
    ensures
        srgb_gamma_s(0) == 0,
{
}

/// The gamma curve fixes full brightness: encoding one gives one.
pub proof fn lemma_srgb_gamma_one()
    ensures
        srgb_gamma_s(FX_ONE as int) == FX_ONE,
{
    let u = FX_ONE as int;
    let w = if u > SRGB_INPUT_CAP {
        SRGB_INPUT_CAP as int
    } else {
        u
    };
    lemma_mul_known(w, w, 65536, 65536, 4294967296);
    lemma_mul_known(w * w, w, 4294967296, 65536, 281474976710656);
    lemma_mul_known(w * w * w, w, 281474976710656, 65536, 18446744073709551616);
    lemma_mul_known(w * w * w * w, w, 18446744073709551616, 65536, 1208925819614629174706176);
    lemma_mul_known(
        w * w * w * w * w,
        FX_ONE as int,
        1208925819614629174706176,
        65536,
        79228162514264337593543950336,
    );
    lemma_icbrt_unique(79228162514264337593543950336, 4294967296);
    lemma_isqrt_unique(4294967296, 65536);
    lemma_mul_known(
        isqrt_s(icbrt_s(w * w * w * w * w * FX_ONE)),
        FX_ONE as int,
        65536,
        65536,
        4294967296,
    );
    lemma_isqrt_unique(4294967296, 65536);
}

/// The value of the gamma curve at the top of the linear segment.
proof fn lemma_srgb_gamma_at_linear_limit()
    ensures
        srgb_gamma_s(SRGB_LINEAR_LIMIT as int) == 2647,
{
    let u = SRGB_LINEAR_LIMIT as int;
    let w = if u > SRGB_INPUT_CAP {
        SRGB_INPUT_CAP as int
    } else {
        u
    };
    lemma_mul_known(w, w, 205, 205, 42025);
    lemma_mul_known(w * w, w, 42025, 205, 8615125);
    lemma_mul_known(w * w * w, w, 8615125, 205, 1766100625);
    lemma_mul_known(w * w * w * w, w, 1766100625, 205, 362050628125);
    lemma_mul_known(w * w * w * w * w, FX_ONE as int, 362050628125, 65536, 23727349964800000);
    lemma_icbrt_unique(23727349964800000, 287353);
    lemma_isqrt_unique(287353, 536);
    lemma_mul_known(
        isqrt_s(icbrt_s(w * w * w * w * w * FX_ONE)),
        FX_ONE as int,
        536,
        65536,
        35127296,
    );
    lemma_isqrt_unique(35127296, 5926);
}

/// Fifth powers of nonnegative values respect their order.
proof fn lemma_pow5_mono(x: int, y: int)
    requires
        0 <= x <= y,
    ensures
        0 <= x * x * x * x * x,
        x * x * x * x * x <= y * y * y * y * y,
{
    assert(0 <= x * x && x * x <= y * y) by (nonlinear_arith)
        requires
            0 <= x <= y,
    ;
    assert(0 <= x * x * x && x * x * x <= y * y * y) by (nonlinear_arith)
        requires
            0 <= x <= y,
            0 <= x * x <= y * y,
    ;
    assert(0 <= x * x * x * x && x * x * x * x <= y * y * y * y) by (nonlinear_arith)
        requires
            0 <= x <= y,
            0 <= x * x * x <= y * y * y,
    ;
    assert(0 <= x * x * x * x * x && x * x * x * x * x <= y * y * y * y * y) by (nonlinear_arith)
        requires
            0 <= x <= y,
            0 <= x * x * x * x <= y * y * y * y,
    ;
}

/// The power branch of the gamma curve is monotone.
#[verifier::rlimit(100)]
proof fn lemma_srgb_power_monotone(a: int, b: int)
    requires
        SRGB_LINEAR_LIMIT <= a <= b,
    ensures
        srgb_gamma_s(a) <= srgb_gamma_s(b),
{
    let wa = if a > SRGB_INPUT_CAP {
        SRGB_INPUT_CAP as int
    } else {
        a
    };
    let wb = if b > SRGB_INPUT_CAP {
        SRGB_INPUT_CAP as int
    } else {
        b
    };
    assert(0 <= wa <= wb);
    lemma_pow5_mono(wa, wb);
    let na = wa * wa * wa * wa * wa * FX_ONE;
    let nb = wb * wb * wb * wb * wb * FX_ONE;
    assert(0 <= na <= nb) by (nonlinear_arith)
        requires
            0 <= wa * wa * wa * wa * wa,
            wa * wa * wa * wa * wa <= wb * wb * wb * wb * wb,
            na == wa * wa * wa * wa * wa * FX_ONE,
            nb == wb * wb * wb * wb * wb * FX_ONE,
            FX_ONE as int == 65536,
    ;
    lemma_icbrt_monotone(na, nb);
    lemma_icbrt_bounds(na);
    lemma_isqrt_monotone(icbrt_s(na), icbrt_s(nb));
    lemma_isqrt_bounds(icbrt_s(na));
    lemma_isqrt_monotone(
        isqrt_s(icbrt_s(na)) * FX_ONE,
        isqrt_s(icbrt_s(nb)) * FX_ONE,
    );
    lemma_div_is_ordered(
        1055 * isqrt_s(isqrt_s(icbrt_s(na)) * FX_ONE) - 55 * FX_ONE,
        1055 * isqrt_s(isqrt_s(icbrt_s(nb)) * FX_ONE) - 55 * FX_ONE,
        1000,
    );
}

/// The gamma curve is monotone on the unit interval: encoding preserves the
/// order of channel values.
pub proof fn lemma_srgb_gamma_monotone(a: int, b: int)
    requires
        0 <= a <= b <= FX_ONE,
    ensures
        srgb_gamma_s(a) <= srgb_gamma_s(b),
{
    if b < SRGB_LINEAR_LIMIT {
        lemma_div_is_ordered(a * 1292, b * 1292, 100);
    } else if a >= SRGB_LINEAR_LIMIT {
        lemma_srgb_power_monotone(a, b);
    } else {
        lemma_div_is_ordered(a * 1292, 263568int, 100);
        assert(srgb_gamma_s(a) <= 2635);
        lemma_srgb_power_monotone(SRGB_LINEAR_LIMIT as int, b);
        lemma_srgb_gamma_at_linear_limit();
    }
}

} // verus!

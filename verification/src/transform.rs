//! Invertible transforms: per-axis scale, translation, and rotation about an
//! axis (Rodrigues' formula over a fixed-point sine and cosine).

use vstd::prelude::*;

use crate::fx::{
    div_floor, fx_add, fx_add_s, fx_div, fx_div_s, fx_divi, fx_divi_s, fx_mul, fx_mul_s, fx_neg,
    fx_neg_s, fx_ok, fx_sub, fx_sub_s, lemma_div_floor_bounds, div_floor_128, FX_ONE,
};
use crate::vector::{
    v3, v_add_s, v_cmul_s, v_cross_s, v_dot_s, v_neg_s, v_scale_s, vec_ok, Vector3,
};
use crate::Ray;

verus! {

/// The angle that stands for pi.
pub const PI_FX: i64 = 205887;

/// The angle that stands for two pi.
pub const TAU_FX: i64 = 411775;

/// The angle that stands for half pi.
pub const HALF_PI_FX: i64 = 102944;

/// Reduce an angle into `[-PI_FX, PI_FX]` by subtracting whole turns.
pub open spec fn reduce_angle_s(theta: int) -> int {
    theta - div_floor(theta + PI_FX, TAU_FX as int) * TAU_FX
}

/// Odd Taylor polynomial for the sine on the reduced quarter-turn range.
pub open spec fn sin_poly_s(r: int) -> int {
    let r2 = fx_mul_s(r, r);
    let p3 = fx_mul_s(r2, r);
    let p5 = fx_mul_s(p3, r2);
    let p7 = fx_mul_s(p5, r2);
    let p9 = fx_mul_s(p7, r2);
    fx_add_s(
        fx_sub_s(
            fx_add_s(fx_sub_s(r, fx_divi_s(p3, 6)), fx_divi_s(p5, 120)),
            fx_divi_s(p7, 5040),
        ),
        fx_divi_s(p9, 362880),
    )
}

/// Even Taylor polynomial for the cosine on the reduced quarter-turn range.
pub open spec fn cos_poly_s(r: int) -> int {
    let r2 = fx_mul_s(r, r);
    let r4 = fx_mul_s(r2, r2);
    let r6 = fx_mul_s(r4, r2);
    let r8 = fx_mul_s(r6, r2);
    let r10 = fx_mul_s(r8, r2);
    fx_sub_s(
        fx_add_s(
            fx_sub_s(
                fx_add_s(fx_sub_s(FX_ONE as int, fx_divi_s(r2, 2)), fx_divi_s(r4, 24)),
                fx_divi_s(r6, 720),
            ),
            fx_divi_s(r8, 40320),
        ),
        fx_divi_s(r10, 3628800),
    )
}

/// Fixed-point sine: reduce to `[-PI_FX, PI_FX]`, fold into the central
/// half-turn, and evaluate the polynomial.
pub open spec fn fx_sin_s(theta: int) -> int {
    let tr = reduce_angle_s(theta);
    if tr > HALF_PI_FX {
        sin_poly_s(PI_FX - tr)
    } else if tr < -HALF_PI_FX {
        fx_neg_s(sin_poly_s(tr + PI_FX))
    } else {
        sin_poly_s(tr)
    }
}

/// Fixed-point cosine, folded the same way as the sine.
pub open spec fn fx_cos_s(theta: int) -> int {
    let tr = reduce_angle_s(theta);
    if tr > HALF_PI_FX {
        fx_neg_s(cos_poly_s(PI_FX - tr))
    } else if tr < -HALF_PI_FX {
        fx_neg_s(cos_poly_s(tr + PI_FX))
    } else {
        cos_poly_s(tr)
    }
}

fn reduce_angle(theta: i64) -> (r: i64)
    requires
        fx_ok(theta as int),
    ensures
        r as int == reduce_angle_s(theta as int),
        -PI_FX <= r <= PI_FX,
        fx_ok(r as int),
{
    let p = (theta as i128) + (PI_FX as i128);
    let k = div_floor_128(p, TAU_FX as i128);
    proof {
        lemma_div_floor_bounds(p as int, TAU_FX as int);
        assert(0 <= p as int - (TAU_FX as int) * div_floor(p as int, TAU_FX as int)
            < TAU_FX as int);
    }
    let tr = p - k * (TAU_FX as i128) - (PI_FX as i128);
    tr as i64
}

fn sin_poly(r: i64) -> (s: i64)
    requires
        fx_ok(r as int),
    ensures
        s as int == sin_poly_s(r as int),
        fx_ok(s as int),
{
    let r2 = fx_mul(r, r);
    let p3 = fx_mul(r2, r);
    let p5 = fx_mul(p3, r2);
    let p7 = fx_mul(p5, r2);
    let p9 = fx_mul(p7, r2);
    fx_add(
        fx_sub(
            fx_add(fx_sub(r, fx_divi(p3, 6)), fx_divi(p5, 120)),
            fx_divi(p7, 5040),
        ),
        fx_divi(p9, 362880),
    )
}

fn cos_poly(r: i64) -> (c: i64)
    requires
        fx_ok(r as int),
    ensures
        c as int == cos_poly_s(r as int),
        fx_ok(c as int),
{
    let r2 = fx_mul(r, r);
    let r4 = fx_mul(r2, r2);
    let r6 = fx_mul(r4, r2);
    let r8 = fx_mul(r6, r2);
    let r10 = fx_mul(r8, r2);
    fx_sub(
        fx_add(
            fx_sub(
                fx_add(fx_sub(FX_ONE, fx_divi(r2, 2)), fx_divi(r4, 24)),
                fx_divi(r6, 720),
            ),
            fx_divi(r8, 40320),
        ),
        fx_divi(r10, 3628800),
    )
}

pub(crate) fn fx_sin(theta: i64) -> (s: i64)
    requires
        fx_ok(theta as int),
    ensures
        s as int == fx_sin_s(theta as int),
        fx_ok(s as int),
{
    let tr = reduce_angle(theta);
    if tr > HALF_PI_FX {
        sin_poly(PI_FX - tr)
    } else if tr < -HALF_PI_FX {
        fx_neg(sin_poly(tr + PI_FX))
    } else {
        sin_poly(tr)
    }
}

pub(crate) fn fx_cos(theta: i64) -> (c: i64)
    requires
        fx_ok(theta as int),
    ensures
        c as int == fx_cos_s(theta as int),
        fx_ok(c as int),
{
    let tr = reduce_angle(theta);
    if tr > HALF_PI_FX {
        fx_neg(cos_poly(PI_FX - tr))
    } else if tr < -HALF_PI_FX {
        fx_neg(cos_poly(tr + PI_FX))
    } else {
        cos_poly(tr)
    }
}

/// A transformation that can be applied to a vector or a ray.
#[derive(Clone, Copy, Debug)]
pub enum Transform {
    Scale(Vector3),
    Translate(Vector3),
    Rotate(Vector3, i64),
}

/// Every parameter of the transform is a well-formed scalar.
pub open spec fn transform_wf(t: Transform) -> bool {
    match t {
        Transform::Scale(s) => vec_ok(s),
        Transform::Translate(d) => vec_ok(d),
        Transform::Rotate(axis, angle) => vec_ok(axis) && fx_ok(angle as int),
    }
}

/// The algebraic inverse: reciprocal scale, negated translation, negated
/// rotation angle about the same axis.
pub open spec fn inverse_s(t: Transform) -> Transform {
    match t {
        Transform::Scale(s) => Transform::Scale(
            v3(
                fx_div_s(FX_ONE as int, s.x as int),
                fx_div_s(FX_ONE as int, s.y as int),
                fx_div_s(FX_ONE as int, s.z as int),
            ),
        ),
        Transform::Translate(d) => Transform::Translate(v_neg_s(d)),
        Transform::Rotate(axis, angle) => Transform::Rotate(axis, fx_neg_s(angle as int) as i64),
    }
}

/// Rodrigues' rotation of `v` about the unit `axis` by `angle`:
/// `v cos a + (axis x v) sin a + axis (axis . v) (1 - cos a)`.
pub open spec fn rotate_s(axis: Vector3, angle: int, v: Vector3) -> Vector3 {
    let c = fx_cos_s(angle);
    let s = fx_sin_s(angle);
    v_add_s(
        v_add_s(v_scale_s(c, v), v_scale_s(s, v_cross_s(axis, v))),
        v_scale_s(fx_mul_s(v_dot_s(axis, v), fx_sub_s(FX_ONE as int, c)), axis),
    )
}

/// Apply the transform to a point (or direction) held in a vector.
pub open spec fn transform_s(t: Transform, v: Vector3) -> Vector3 {
    match t {
        Transform::Scale(s) => v_cmul_s(v, s),
        Transform::Translate(d) => v_add_s(v, d),
        Transform::Rotate(axis, angle) => rotate_s(axis, angle as int, v),
    }
}

/// Apply the transform to a ray: scale and rotation act on origin and
/// direction alike, translation moves only the origin.
pub open spec fn transform_ray_s(t: Transform, ray: Ray) -> Ray {
    match t {
        Transform::Translate(_) => Ray { origin: transform_s(t, ray.origin), direction: ray.direction },
        _ => Ray { origin: transform_s(t, ray.origin), direction: transform_s(t, ray.direction) },
    }
}

impl Transform {
    /// Return the inverse of this transform.
    pub fn inverse(self) -> (r: Transform)
        requires
            transform_wf(self),
        ensures
            r == inverse_s(self),
            transform_wf(r),
    {
        match self {
            Transform::Scale(s) => Transform::Scale(
                Vector3 {
                    x: fx_div(FX_ONE, s.x),
                    y: fx_div(FX_ONE, s.y),
                    z: fx_div(FX_ONE, s.z),
                },
            ),
            Transform::Translate(d) => Transform::Translate(d.neg()),
            Transform::Rotate(axis, angle) => Transform::Rotate(axis, fx_neg(angle)),
        }
    }

    /// Return the input vector transformed by this transformation.
    pub fn transform(self, vector: Vector3) -> (r: Vector3)
        requires
            transform_wf(self),
            vec_ok(vector),
        ensures
            r == transform_s(self, vector),
            vec_ok(r),
    {
        match self {
            Transform::Scale(s) => vector.cwise_mul(s),
            Transform::Translate(d) => vector.add(d),
            Transform::Rotate(axis, angle) => {
                let c = fx_cos(angle);
                let s = fx_sin(angle);
                let spun = vector.scale(c).add(axis.cross(vector).scale(s));
                spun.add(axis.scale(fx_mul(axis.dot(vector), fx_sub(FX_ONE, c))))
            }
        }
    }

    /// Return a copy of the input ray transformed by this transformation.
    pub fn transform_ray(self, ray: Ray) -> (r: Ray)
        requires
            transform_wf(self),
            vec_ok(ray.origin),
            vec_ok(ray.direction),
        ensures
            r == transform_ray_s(self, ray),
            vec_ok(r.origin),
            vec_ok(r.direction),
    {
        match self {
            Transform::Translate(_) => Ray {
                origin: self.transform(ray.origin),
                direction: ray.direction,
            },
            _ => Ray {
                origin: self.transform(ray.origin),
                direction: self.transform(ray.direction),
            },
        }
    }
}

} // verus!

//! An offline Monte Carlo path tracer over exact fixed-point arithmetic.
//!
//! Scene geometry, transforms, materials and the light-transport estimator
//! are all expressed over 64-bit fixed-point scalars (see `fx`), so every
//! step of the rendering pipeline carries a precise contract.

pub mod fx;
pub mod laws;
pub mod image;
pub mod material;
pub mod object;
pub mod random;
pub mod scene;
pub mod transform;
pub mod vector;

use vstd::prelude::*;

use crate::fx::{fx_div_s, fx_from_u32, fx_mul, fx_mul_s, fx_neg, fx_neg_s, fx_ok, fx_sub, fx_sub_s, sat, FX_ONE};
use crate::vector::{v3, v_add_s, v_normalized_s, v_scale_s, v_zero, vec_ok, Vector3};

verus! {

/// A ray in 3D space with direction and origin.
#[derive(Clone, Copy, Debug)]
pub struct Ray {
    pub origin: Vector3,
    pub direction: Vector3,
}

/// Both endpoints of the ray are well formed.
pub open spec fn ray_wf(r: Ray) -> bool {
    vec_ok(r.origin) && vec_ok(r.direction)
}

/// The point reached after travelling `t` along the ray.
pub open spec fn ray_at_s(r: Ray, t: int) -> Vector3 {
    v_add_s(r.origin, v_scale_s(t, r.direction))
}

impl Ray {
    /// Create a new ray with the given `origin` in the given `direction`.
    pub fn new(origin: Vector3, direction: Vector3) -> (r: Ray)
        ensures
            r == (Ray { origin, direction }),
    {
        Ray { origin, direction }
    }

    /// Get the position at the specified time `t`.
    pub fn at(self, t: i64) -> (r: Vector3)
        requires
            ray_wf(self),
            fx_ok(t as int),
        ensures
            r == ray_at_s(self, t as int),
            vec_ok(r),
    {
        self.origin.add(self.direction.scale(t))
    }
}

/// A pinhole camera at the origin looking down the positive `z` axis, with
/// an image plane `width` wide placed `focal_len` in front of it.
#[derive(Clone, Copy, Debug)]
pub struct Camera {
    pub focal_len: i64,
    pub width: i64,
}

/// Both camera parameters are well formed.
pub open spec fn camera_wf(c: Camera) -> bool {
    fx_ok(c.focal_len as int) && fx_ok(c.width as int)
}

/// The primary ray for the pixel `(x, y)` of an image with resolution
/// `(x_res, y_res)`: from the origin through the pixel's point on the image
/// plane, with a normalized direction.
pub open spec fn camera_ray_s(c: Camera, x: int, y: int, x_res: int, y_res: int) -> Ray {
    let xf = sat(x * FX_ONE);
    let yf = sat(y * FX_ONE);
    let xrf = sat(x_res * FX_ONE);
    let yrf = sat(y_res * FX_ONE);
    let aspect = fx_div_s(xrf, yrf);
    let dw = fx_div_s(c.width as int, xrf);
    let dh = fx_div_s(c.width as int, fx_mul_s(yrf, aspect));
    let xi = fx_mul_s(fx_sub_s(xf, fx_div_s(xrf, 2 * FX_ONE)), dw);
    let yi = fx_mul_s(fx_sub_s(yf, fx_div_s(yrf, 2 * FX_ONE)), dh);
    Ray {
        origin: v_zero(),
        direction: v_normalized_s(v3(xi, fx_neg_s(yi), c.focal_len as int)),
    }
}

impl Camera {
    /// Find the ray for the pixel at `x`, `y` if the image has resolution
    /// `x_res`, `y_res`.
    pub fn ray(&self, x: u32, y: u32, x_res: u32, y_res: u32) -> (r: Ray)
        requires
            camera_wf(*self),
        ensures
            r == camera_ray_s(*self, x as int, y as int, x_res as int, y_res as int),
            ray_wf(r),
    {
        let xf = fx_from_u32(x);
        let yf = fx_from_u32(y);
        let xrf = fx_from_u32(x_res);
        let yrf = fx_from_u32(y_res);
        let aspect = crate::fx::fx_div(xrf, yrf);
        let dw = crate::fx::fx_div(self.width, xrf);
        let dh = crate::fx::fx_div(self.width, fx_mul(yrf, aspect));
        let xi = fx_mul(fx_sub(xf, crate::fx::fx_div(xrf, 2 * FX_ONE)), dw);
        let yi = fx_mul(fx_sub(yf, crate::fx::fx_div(yrf, 2 * FX_ONE)), dh);
        let direction = Vector3::unit(xi, fx_neg(yi), self.focal_len);
        Ray::new(Vector3::zeros(), direction)
    }
}

} // verus!

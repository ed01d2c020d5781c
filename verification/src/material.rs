//! Materials and the per-surface lighting estimator.

use vstd::prelude::*;

use crate::fx::{fx_clamp, fx_clamp_s, fx_div, fx_div_s, fx_mul, fx_mul_s, fx_ok, fx_sub_s, FX_ONE};
use crate::random::{hemi_ok, sample_hemisphere};
use crate::scene::{sample_post, scene_wf, Scene, TMIN_BOUNCE};
use crate::transform::{PI_FX, TAU_FX};
use crate::vector::{v_add_s, v_cmul_s, v_dot_s, v_normalized_s, v_scale_s, vec_ok, Vector3};
use crate::Ray;

verus! {

/// The reflectance models a surface can use:
/// - `Emissive`: a light source, emitting `color` at the given `intensity`.
/// - `Diffuse`: a Lambertian surface with the given `color`.
/// - `Specular`: a glossy surface with the given `color` and `roughness`.
#[derive(Clone, Copy, Debug)]
pub enum Material {
    Emissive { color: Vector3, intensity: i64 },
    Diffuse { color: Vector3 },
    Specular { color: Vector3, roughness: i64 },
}

/// Every parameter of the material is well formed.
pub open spec fn material_wf(m: Material) -> bool {
    match m {
        Material::Emissive { color, intensity } => vec_ok(color) && fx_ok(intensity as int),
        Material::Diffuse { color } => vec_ok(color),
        Material::Specular { color, roughness } => vec_ok(color) && fx_ok(roughness as int),
    }
}

/// A light source emits its color at its intensity, gathering nothing.
pub open spec fn emissive_out_s(color: Vector3, intensity: int) -> Vector3 {
    v_scale_s(intensity, color)
}

/// Lambertian combination for a sampled direction `dir` and incoming light
/// `inc`: uniform-hemisphere weighting times the cosine-weighted albedo,
/// `2 (dir . normal) color (x) inc` (the two pi of the sampling density and
/// the pi of the albedo cancel to the factor two).
pub open spec fn diffuse_out_s(color: Vector3, dir: Vector3, normal: Vector3, inc: Vector3) -> Vector3 {
    v_scale_s(fx_mul_s(2 * FX_ONE, v_dot_s(dir, normal)), v_cmul_s(color, inc))
}

/// The half vector between the view direction and the sampled direction.
pub open spec fn halfway_s(view: Vector3, dir: Vector3) -> Vector3 {
    v_normalized_s(v_add_s(view, dir))
}

/// Microfacet distribution term, clamped to the unit interval:
/// `(normal . h)^2 / (roughness^2 - 2 roughness + pi)`.
pub open spec fn specular_d_s(roughness: int, normal: Vector3, h: Vector3) -> int {
    let nh = v_dot_s(normal, h);
    fx_clamp_s(
        fx_div_s(
            fx_mul_s(nh, nh),
            specular_denom_s(roughness),
        ),
        0,
        FX_ONE as int,
    )
}

/// The distribution term's denominator, `roughness^2 - 2 roughness + pi`.
pub open spec fn specular_denom_s(roughness: int) -> int {
    crate::fx::fx_add_s(
        fx_sub_s(fx_mul_s(roughness, roughness), fx_mul_s(2 * FX_ONE, roughness)),
        PI_FX as int,
    )
}

/// Geometry term, clamped to the unit interval: `1 / (4 (view . h)^2)`.
pub open spec fn specular_g_s(view: Vector3, h: Vector3) -> int {
    let vh = v_dot_s(view, h);
    fx_clamp_s(
        fx_div_s(FX_ONE as int, fx_mul_s(4 * FX_ONE, fx_mul_s(vh, vh))),
        0,
        FX_ONE as int,
    )
}

/// Glossy combination: `2 pi (D G color) (x) inc` for the half-vector terms.
pub open spec fn specular_out_s(
    color: Vector3,
    roughness: int,
    view: Vector3,
    normal: Vector3,
    dir: Vector3,
    inc: Vector3,
) -> Vector3 {
    let h = halfway_s(view, dir);
    v_scale_s(
        fx_mul_s(
            TAU_FX as int,
            fx_mul_s(specular_d_s(roughness, normal, h), specular_g_s(view, h)),
        ),
        v_cmul_s(color, inc),
    )
}

/// What the lighting estimator guarantees. An emissive surface returns its
/// emission exactly, whatever else happens. A diffuse or specular surface
/// returns the matching combination of its color with the incoming radiance
/// along some hemisphere direction, where the incoming radiance itself
/// satisfies the scene sampler's contract with one fewer bounce.
pub open spec fn lighting_post(
    mat: Material,
    view: Vector3,
    position: Vector3,
    normal: Vector3,
    scene: Scene,
    bounces: nat,
    r: Vector3,
) -> bool
    decreases bounces, 1int,
{
    match mat {
        Material::Emissive { color, intensity } => r == emissive_out_s(color, intensity as int),
        Material::Diffuse { color } => exists|dir: Vector3, inc: Vector3|
            hemi_ok(dir, normal) && vec_ok(inc) && sample_post(
                scene,
                (Ray { origin: position, direction: dir }),
                TMIN_BOUNCE,
                bounces,
                inc,
            ) && r == diffuse_out_s(color, dir, normal, inc),
        Material::Specular { color, roughness } => exists|dir: Vector3, inc: Vector3|
            hemi_ok(dir, normal) && vec_ok(inc) && sample_post(
                scene,
                (Ray { origin: position, direction: dir }),
                TMIN_BOUNCE,
                bounces,
                inc,
            ) && r == specular_out_s(color, roughness as int, view, normal, dir, inc),
    }
}

impl Material {
    /// Estimate the outgoing radiance at `position` with surface `normal`,
    /// viewed from `view`, by one-sample hemispherical integration into the
    /// scene with the remaining bounce budget.
    #[verifier::rlimit(50)]
    pub fn lighting(
        &self,
        view: Vector3,
        position: Vector3,
        normal: Vector3,
        scene: &Scene,
        bounces: usize,
    ) -> (r: Vector3)
        requires
            material_wf(*self),
            vec_ok(view),
            vec_ok(position),
            vec_ok(normal),
            scene_wf(*scene),
        ensures
            lighting_post(*self, view, position, normal, *scene, bounces as nat, r),
            vec_ok(r),
        decreases bounces, 1int,
    {
        match *self {
            Material::Emissive { color, intensity } => color.scale(intensity),
            Material::Diffuse { color } => {
                let dir = sample_hemisphere(normal);
                let inc = scene.sample(Ray::new(position, dir), TMIN_BOUNCE, bounces);
                let out = color.cwise_mul(inc).scale(fx_mul(2 * FX_ONE, dir.dot(normal)));
                proof {
                    assert(out == diffuse_out_s(color, dir, normal, inc));
                    assert(sample_post(
                        *scene,
                        (Ray { origin: position, direction: dir }),
                        TMIN_BOUNCE,
                        bounces as nat,
                        inc,
                    ));
                    assert(exists|d: Vector3, ic: Vector3|
                        hemi_ok(d, normal) && vec_ok(ic) && sample_post(
                            *scene,
                            (Ray { origin: position, direction: d }),
                            TMIN_BOUNCE,
                            bounces as nat,
                            ic,
                        ) && out == diffuse_out_s(color, d, normal, ic));
                }
                out
            }
            Material::Specular { color, roughness } => {
                let dir = sample_hemisphere(normal);
                let inc = scene.sample(Ray::new(position, dir), TMIN_BOUNCE, bounces);
                let h = view.add(dir).normalized();
                let nh = normal.dot(h);
                let denom = crate::fx::fx_add(
                    crate::fx::fx_sub(fx_mul(roughness, roughness), fx_mul(2 * FX_ONE, roughness)),
                    PI_FX,
                );
                let dterm = fx_clamp(fx_div(fx_mul(nh, nh), denom), 0, FX_ONE);
                let vh = view.dot(h);
                let gterm = fx_clamp(fx_div(FX_ONE, fx_mul(4 * FX_ONE, fx_mul(vh, vh))), 0, FX_ONE);
                let out = color.cwise_mul(inc).scale(fx_mul(TAU_FX, fx_mul(dterm, gterm)));
                proof {
                    assert(h == halfway_s(view, dir));
                    assert(dterm as int == specular_d_s(roughness as int, normal, h));
                    assert(gterm as int == specular_g_s(view, h));
                    assert(out == specular_out_s(color, roughness as int, view, normal, dir, inc));
                    assert(sample_post(
                        *scene,
                        (Ray { origin: position, direction: dir }),
                        TMIN_BOUNCE,
                        bounces as nat,
                        inc,
                    ));
                    assert(exists|d: Vector3, ic: Vector3|
                        hemi_ok(d, normal) && vec_ok(ic) && sample_post(
                            *scene,
                            (Ray { origin: position, direction: d }),
                            TMIN_BOUNCE,
                            bounces as nat,
                            ic,
                        ) && out == specular_out_s(color, roughness as int, view, normal, d, ic));
                }
                out
            }
        }
    }
}

} // verus!

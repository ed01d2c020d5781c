//! The scene, the closest-intersection scan, the recursive radiance
//! estimator, and the parallel per-pixel renderer with gamma encoding.

use vstd::prelude::*;

use rayon::iter::{IntoParallelIterator, ParallelIterator};

use crate::fx::{
    div_floor, div_floor_128, fx_div, fx_div_s, fx_from_usize, fx_ok, icbrt_s, icbrt_wide,
    isqrt_s, isqrt_wide, sat, sat_128, FX_ONE,
};
use crate::image::Image;
use crate::material::lighting_post;
use crate::object::{intersection_wf, object_intersect_s, object_wf, Intersection, Object, Renderable};
use crate::vector::{v3, v_add_s, v_neg_s, v_scale_s, v_zero, vec_ok, Vector3};
use crate::{camera_ray_s, camera_wf, ray_wf, Camera, Ray};

verus! {

/// The minimum hit distance used for bounce rays, rejecting immediate
/// self-intersections (about one thousandth of a unit).
pub const TMIN_BOUNCE: i64 = 66;

/// The fixed bounce budget of the render loop.
pub const BOUNCES: usize = 3;

/// Below this input the gamma curve is linear: floor of `0.0031308` in
/// fixed point.
pub const SRGB_LINEAR_LIMIT: i64 = 205;

/// Inputs to the gamma power branch are capped here (four units); everything
/// at or above it encodes to full brightness, which the final clamp then
/// flattens anyway.
pub const SRGB_INPUT_CAP: i64 = 262144;

/// A simple scene with a camera and some objects.
pub struct Scene {
    pub camera: Camera,
    pub objects: Vec<Object>,
}

pub open spec fn scene_wf(s: Scene) -> bool {
    camera_wf(s.camera) && forall|i: int|
        0 <= i < s.objects@.len() ==> object_wf(#[trigger] s.objects@[i])
}

/// The closest intersection over the first `k` objects, scanned in order:
/// a hit replaces the current best only when its distance is strictly
/// smaller and strictly beyond `tmin`, so the first-seen hit wins ties.
pub open spec fn closest_s(
    objs: Seq<Object>,
    ray: Ray,
    tmin: i64,
    k: int,
) -> Option<(i64, Intersection, int)>
    decreases k,
{
    if k <= 0 {
        None
    } else {
        let prev = closest_s(objs, ray, tmin, k - 1);
        match object_intersect_s(objs[k - 1], ray) {
            None => prev,
            Some((t, inter)) => match prev {
                None => if t > tmin {
                    Some((t, inter, k - 1))
                } else {
                    None
                },
                Some((tc, ic, jc)) => if t < tc && t > tmin {
                    Some((t, inter, k - 1))
                } else {
                    prev
                },
            },
        }
    }
}

/// What the radiance estimator guarantees: an exhausted bounce budget and a
/// miss both yield black; a hit yields whatever the hit object's lighting
/// model guarantees for the hit point, with one fewer bounce.
pub open spec fn sample_post(scene: Scene, ray: Ray, tmin: i64, bounces: nat, r: Vector3) -> bool
    decreases bounces, 0int,
{
    if bounces == 0 {
        r == v_zero()
    } else {
        match closest_s(scene.objects@, ray, tmin, scene.objects@.len() as int) {
            None => r == v_zero(),
            Some((t, inter, idx)) => lighting_post(
                scene.objects@[idx].material,
                v_neg_s(ray.direction),
                inter.position,
                inter.normal,
                scene,
                (bounces - 1) as nat,
                r,
            ),
        }
    }
}

impl Scene {
    /// Find the closest intersection between a ray and an object in the
    /// scene, strictly beyond `tmin`.
    pub fn closest_intersection(&self, ray: Ray, tmin: i64) -> (r: Option<
        (i64, Intersection, &Object),
    >)
        requires
            scene_wf(*self),
            ray_wf(ray),
            fx_ok(tmin as int),
        ensures
            match closest_s(self.objects@, ray, tmin, self.objects@.len() as int) {
                None => r is None,
                Some(c) => {
                    &&& r matches Some(v)
                    &&& v.0 == c.0
                    &&& v.1 == c.1
                    &&& 0 <= c.2 < self.objects@.len()
                    &&& *v.2 == self.objects@[c.2]
                    &&& intersection_wf(v.1)
                },
            },
    {
        let mut best: Option<(i64, Intersection, usize)> = None;
        let mut i: usize = 0;
        while i < self.objects.len()
            invariant
                scene_wf(*self),
                ray_wf(ray),
                0 <= i <= self.objects@.len(),
                match closest_s(self.objects@, ray, tmin, i as int) {
                    None => best is None,
                    Some(c) => {
                        &&& best matches Some(v)
                        &&& v.0 == c.0
                        &&& v.1 == c.1
                        &&& 0 <= c.2 < i
                        &&& v.2 as int == c.2
                        &&& intersection_wf(v.1)
                    },
                },
            decreases self.objects@.len() - i,
        {
            let obj = &self.objects[i];
            let hit = obj.intersection(ray);
            best = match (best, hit) {
                (None, Some((t, inter))) => if t > tmin {
                    Some((t, inter, i))
                } else {
                    None
                },
                (Some((tc, _ic, _jc)), Some((t, inter))) => if t < tc && t > tmin {
                    Some((t, inter, i))
                } else {
                    best
                },
                _ => best,
            };
            i = i + 1;
        }
        match best {
            None => None,
            Some((t, inter, j)) => Some((t, inter, &self.objects[j])),
        }
    }

    /// Estimate the radiance arriving along `ray`: black when the bounce
    /// budget is exhausted or nothing is hit, and otherwise the hit
    /// material's lighting estimate with one fewer bounce.
    pub fn sample(&self, ray: Ray, tmin: i64, bounces: usize) -> (r: Vector3)
        requires
            scene_wf(*self),
            ray_wf(ray),
            fx_ok(tmin as int),
        ensures
            sample_post(*self, ray, tmin, bounces as nat, r),
            vec_ok(r),
            bounces == 0 ==> r == v_zero(),
            self.objects@.len() == 0 ==> r == v_zero(),
        decreases bounces, 0int,
    {
        if bounces == 0 {
            Vector3::zeros()
        } else {
            let closest = self.closest_intersection(ray, tmin);
            if let Some((_t, intersection, obj)) = closest {
                let position = intersection.position;
                let normal = intersection.normal;
                obj.material.lighting(ray.direction.neg(), position, normal, self, bounces - 1)
            } else {
                Vector3::zeros()
            }
        }
    }
}

/// The sRGB gamma transfer curve: linear `12.92 u` below the threshold, and
/// `1.055 u^(1/2.4) - 0.055` above it, with the exponent `1/2.4 = 5/12`
/// taken by exact floor roots (a cube root and two square roots of the
/// fifth power).
pub open spec fn srgb_gamma_s(u: int) -> int {
    if u < SRGB_LINEAR_LIMIT {
        sat(div_floor(u * 1292, 100))
    } else {
        let w = if u > SRGB_INPUT_CAP {
            SRGB_INPUT_CAP as int
        } else {
            u
        };
        let v1 = icbrt_s(w * w * w * w * w * FX_ONE);
        let v2 = isqrt_s(v1);
        let v3 = isqrt_s(v2 * FX_ONE);
        div_floor(1055 * v3 - 55 * FX_ONE, 1000)
    }
}

/// Gamma-encode one channel.
pub fn srgb_gamma(u: i64) -> (r: i64)
    requires
        fx_ok(u as int),
    ensures
        r as int == srgb_gamma_s(u as int),
        fx_ok(r as int),
{
    if u < SRGB_LINEAR_LIMIT {
        proof {
            assert(-0x40000000000000000000000000000000 <= (u as int) * 1292
                <= 0x40000000000000000000000000000000) by (nonlinear_arith)
                requires
                    -140737488355328 <= u as int <= 140737488355328,
            ;
        }
        sat_128(div_floor_128((u as i128) * 1292, 100))
    } else {
        let w = if u > SRGB_INPUT_CAP {
            SRGB_INPUT_CAP
        } else {
            u
        };
        let w128 = w as u128;
        proof {
            assert(w128 * w128 <= 0x1000000000 && w128 * w128 * (w128 * w128)
                <= 0x1000000000000000000 && w128 * w128 * (w128 * w128) * w128
                <= 0x40000000000000000000000 && w128 * w128 * (w128 * w128) * w128 * (
            FX_ONE as int) < 0x1000000000000000000000000000) by (nonlinear_arith)
                requires
                    0 <= w128 <= 262144,
                    FX_ONE as int == 65536,
            ;
        }
        let w2 = w128 * w128;
        let w4 = w2 * w2;
        let u5 = w4 * w128;
        let m = u5 * (FX_ONE as u128);
        let v1 = icbrt_wide(m);
        let v2 = isqrt_wide(v1 as u64);
        proof {
            assert(v2 * v2 <= v1 ==> v2 < 0x1000000000u128) by (nonlinear_arith)
                requires
                    v1 < 0x1000000000u128,
                    v2 >= 0,
                    v2 * v2 <= v1,
            ;
        }
        let v3 = isqrt_wide((v2 as u64) * (FX_ONE as u64));
        proof {
            assert(v3 * v3 <= v2 * (FX_ONE as int) ==> v3 <= 0x100000000) by (nonlinear_arith)
                requires
                    v2 < 0x1000000000,
                    FX_ONE as int == 65536,
                    v3 >= 0,
                    v3 * v3 <= v2 * (FX_ONE as int),
            ;
            assert(m as int == {
                let wi = w as int;
                wi * wi * wi * wi * wi * (FX_ONE as int)
            }) by (nonlinear_arith)
                requires
                    w128 == w as int,
                    w2 == w128 * w128,
                    w4 == w2 * w2,
                    u5 == w4 * w128,
                    m == u5 * (FX_ONE as u128),
                    0 <= w128 <= 262144,
                    FX_ONE as int == 65536,
                    w2 <= 0x1000000000,
                    w4 <= 0x1000000000000000000,
                    u5 <= 0x40000000000000000000000,
            ;
        }
        let num = 1055 * (v3 as i64) - 55 * FX_ONE;
        let q = div_floor_128(num as i128, 1000);
        q as i64
    }
}

/// Average the accumulated color over the sample count, gamma-encode each
/// channel, and clamp each channel to at most one.
pub open spec fn postprocess_s(color: Vector3, samples: int) -> Vector3 {
    let f = fx_div_s(FX_ONE as int, sat(samples * FX_ONE));
    let avg = v_scale_s(f, color);
    v3(
        min_one_s(srgb_gamma_s(avg.x as int)),
        min_one_s(srgb_gamma_s(avg.y as int)),
        min_one_s(srgb_gamma_s(avg.z as int)),
    )
}

/// The smaller of a channel and full brightness (no lower clamp: negative
/// channels pass through, as the linear gamma branch produces them).
pub open spec fn min_one_s(g: int) -> int {
    if g < FX_ONE {
        g
    } else {
        FX_ONE as int
    }
}

/// The accumulated color after `k` independent radiance samples along `ray`.
pub open spec fn accum_post(scene: Scene, ray: Ray, k: nat, acc: Vector3) -> bool
    decreases k,
{
    if k == 0 {
        acc == v_zero()
    } else {
        exists|prev: Vector3, smp: Vector3|
            accum_post(scene, ray, (k - 1) as nat, prev) && vec_ok(prev) && sample_post(
                scene,
                ray,
                0,
                BOUNCES as nat,
                smp,
            ) && acc == v_add_s(prev, smp)
    }
}

/// What one rendered pixel guarantees: its color is the post-processed
/// average of `samples` radiance estimates along the pixel's primary ray.
pub open spec fn pixel_post(
    scene: Scene,
    i: int,
    xres: int,
    yres: int,
    samples: int,
    p: Vector3,
) -> bool {
    exists|acc: Vector3|
        accum_post(scene, camera_ray_s(scene.camera, i % xres, i / xres, xres, yres), samples as nat, acc)
            && p == postprocess_s(acc, samples)
}

impl Scene {
    /// Render the single pixel with row-major index `i`.
    pub fn render_pixel(&self, i: u32, xres: u32, yres: u32, samples: usize) -> (p: Vector3)
        requires
            scene_wf(*self),
            (i as int) < (xres as int) * (yres as int),
            (xres as int) * (yres as int) <= 0xffffffff,
        ensures
            pixel_post(*self, i as int, xres as int, yres as int, samples as int, p),
            vec_ok(p),
    {
        proof {
            assert(xres > 0) by (nonlinear_arith)
                requires
                    (i as int) < (xres as int) * (yres as int),
                    i >= 0,
                    xres >= 0,
                    yres >= 0,
            ;
        }
        let x = i % xres;
        let y = i / xres;
        let ray = self.camera.ray(x, y, xres, yres);
        let mut color = Vector3::zeros();
        let mut s: usize = 0;
        while s < samples
            invariant
                scene_wf(*self),
                ray_wf(ray),
                0 <= s <= samples,
                vec_ok(color),
                accum_post(*self, ray, s as nat, color),
            decreases samples - s,
        {
            let smp = self.sample(ray, 0, BOUNCES);
            let newc = color.add(smp);
            proof {
                assert(accum_post(*self, ray, (s + 1) as nat, newc));
            }
            color = newc;
            s = s + 1;
        }
        let f = fx_div(FX_ONE, fx_from_usize(samples));
        let avg = color.scale(f);
        let gx = srgb_gamma(avg.x());
        let gy = srgb_gamma(avg.y());
        let gz = srgb_gamma(avg.z());
        let p = Vector3::new(
            if gx < FX_ONE { gx } else { FX_ONE },
            if gy < FX_ONE { gy } else { FX_ONE },
            if gz < FX_ONE { gz } else { FX_ONE },
        );
        proof {
            assert(p == postprocess_s(color, samples as int));
            assert(pixel_post(*self, i as int, xres as int, yres as int, samples as int, p));
        }
        p
    }
}

/// Relies on rayon's parallel indexed map over the pixel range: the
/// collected vector has one entry per pixel index, in index order, and each
/// entry is the value `render_pixel` returned for that index.
#[verifier::external_body]
fn par_render_pixels(scene: &Scene, xres: u32, yres: u32, samples: usize) -> (pixels: Vec<
    Vector3,
>)
    requires
        scene_wf(*scene),
        (xres as int) * (yres as int) <= 0xffffffff,
    ensures
        pixels@.len() == (xres as int) * (yres as int),
        forall|i: int|
            0 <= i < pixels@.len() ==> pixel_post(
                *scene,
                i,
                xres as int,
                yres as int,
                samples as int,
                #[trigger] pixels@[i],
            ) && vec_ok(pixels@[i]),
{
    (0..xres * yres).into_par_iter().map(|i| scene.render_pixel(i, xres, yres, samples)).collect()
}

impl Scene {
    /// Render the scene to an image of `xres` by `yres` pixels, averaging
    /// `samples` radiance estimates per pixel.
    pub fn render(&self, xres: u32, yres: u32, samples: usize) -> (img: Image)
        requires
            scene_wf(*self),
            (xres as int) * (yres as int) <= 0xffffffff,
        ensures
            img.width == xres,
            img.height == yres,
            img.data@.len() == (xres as int) * (yres as int),
            forall|i: int|
                0 <= i < img.data@.len() ==> pixel_post(
                    *self,
                    i,
                    xres as int,
                    yres as int,
                    samples as int,
                    #[trigger] img.data@[i],
                ) && vec_ok(img.data@[i]),
    {
        let pixels = par_render_pixels(self, xres, yres, samples);
        Image::new(pixels, xres, yres)
    }
}

} // verus!

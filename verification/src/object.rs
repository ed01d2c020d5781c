//! Shapes in canonical local space, and objects that place a shape in the
//! world through an ordered list of transforms.

use vstd::prelude::*;

use crate::fx::{
    fx_div, fx_div_s, fx_mul, fx_mul_s, fx_neg, fx_neg_s, fx_ok, fx_sqrt, fx_sqrt_s, fx_sub,
    fx_sub_s, FX_ONE,
};
use crate::material::{material_wf, Material};
use crate::transform::{inverse_s, transform_ray_s, transform_s, transform_wf, Transform};
use crate::vector::{
    v3, v_dot_s, v_normalized_s, v_sqnorm_s, vec_ok, Vector3,
};
use crate::{ray_at_s, ray_wf, Ray};

verus! {

/// An intersection between a ray and a shape.
#[derive(Clone, Copy, Debug)]
pub struct Intersection {
    pub position: Vector3,
    pub normal: Vector3,
}

pub open spec fn intersection_wf(i: Intersection) -> bool {
    vec_ok(i.position) && vec_ok(i.normal)
}

/// A shape that can be intersected by a ray. Each implementation pins its
/// result down with its own `intersection_s` mirror.
pub trait Renderable {
    /// When the receiver is well formed enough to be intersected.
    spec fn wf(&self) -> bool;

    /// What the intersection test returns, stated as a function of the ray.
    spec fn intersection_s(&self, ray: Ray) -> Option<(i64, Intersection)>;

    /// Attempt to find the intersection of the ray and the shape, returning
    /// `None` when there is none.
    fn intersection(&self, ray: Ray) -> (r: Option<(i64, Intersection)>)
        requires
            self.wf(),
            ray_wf(ray),
        ensures
            r == self.intersection_s(ray);
}

/// Unit-size shapes with closed-form ray intersections in local space.
#[derive(Clone, Copy, Debug, PartialEq, Eq, Structural)]
pub enum Shape {
    Sphere,
    Plane,
}

/// Intersection with the unit sphere at the origin: solve the quadratic
/// `a t^2 + b t + c = 0` with `a = |d|^2`, `b = 2 d.o`, `c = |o|^2 - 1` and
/// keep the near root only; a negative discriminant is a miss. The normal is
/// the normalized hit position.
pub open spec fn sphere_intersect_s(ray: Ray) -> Option<(i64, Intersection)> {
    let a = v_sqnorm_s(ray.direction);
    let b = fx_mul_s(2 * FX_ONE, v_dot_s(ray.direction, ray.origin));
    let c = fx_sub_s(v_sqnorm_s(ray.origin), FX_ONE as int);
    let d = fx_sub_s(fx_mul_s(b, b), fx_mul_s(4 * FX_ONE, fx_mul_s(a, c)));
    if d < 0 {
        None
    } else {
        let t = fx_div_s(fx_sub_s(fx_neg_s(b), fx_sqrt_s(d)), fx_mul_s(2 * FX_ONE, a));
        let position = ray_at_s(ray, t);
        Some(
            (
                t as i64,
                Intersection { position, normal: v_normalized_s(position) },
            ),
        )
    }
}

/// Intersection with the unit-bounded plane `z = 0`, `x, y` in `[-1, 1]`.
/// A direction whose `z` component rounds to zero counts as parallel; hits
/// behind the origin or outside the bounded square are misses. The normal
/// faces the side the ray came from.
pub open spec fn plane_intersect_s(ray: Ray) -> Option<(i64, Intersection)> {
    let n = v3(0, 0, FX_ONE as int);
    let a = fx_neg_s(v_dot_s(ray.origin, n));
    let b = v_dot_s(ray.direction, n);
    if b == 0 {
        None
    } else {
        let t = fx_div_s(a, b);
        if t < 0 {
            None
        } else {
            let position = ray_at_s(ray, t);
            if position.x > FX_ONE || position.x < -FX_ONE || position.y > FX_ONE
                || position.y < -FX_ONE {
                None
            } else {
                let normal = if b < 0 {
                    n
                } else {
                    v3(0, 0, -(FX_ONE as int))
                };
                Some((t as i64, Intersection { position, normal }))
            }
        }
    }
}

pub open spec fn shape_intersect_s(shape: Shape, ray: Ray) -> Option<(i64, Intersection)> {
    match shape {
        Shape::Sphere => sphere_intersect_s(ray),
        Shape::Plane => plane_intersect_s(ray),
    }
}

impl Renderable for Shape {
    open spec fn wf(&self) -> bool {
        true
    }

    open spec fn intersection_s(&self, ray: Ray) -> Option<(i64, Intersection)> {
        shape_intersect_s(*self, ray)
    }

    fn intersection(&self, ray: Ray) -> (r: Option<(i64, Intersection)>)
    {
        match *self {
            Shape::Sphere => {
                let a = ray.direction.squared_norm();
                let b = fx_mul(2 * FX_ONE, ray.direction.dot(ray.origin));
                let c = fx_sub(ray.origin.squared_norm(), FX_ONE);
                let d = fx_sub(fx_mul(b, b), fx_mul(4 * FX_ONE, fx_mul(a, c)));
                if d < 0 {
                    return None;
                }
                let t = fx_div(fx_sub(fx_neg(b), fx_sqrt(d)), fx_mul(2 * FX_ONE, a));
                let position = ray.at(t);
                let normal = position.normalized();
                Some((t, Intersection { position, normal }))
            }
            Shape::Plane => {
                let n = Vector3::new(0, 0, FX_ONE);
                let a = fx_neg(ray.origin.dot(n));
                let b = ray.direction.dot(n);
                if b == 0 {
                    return None;
                }
                let t = fx_div(a, b);
                if t < 0 {
                    return None;
                }
                let position = ray.at(t);
                if position.x > FX_ONE || position.x < -FX_ONE || position.y > FX_ONE
                    || position.y < -FX_ONE {
                    return None;
                }
                let normal = if b < 0 {
                    n
                } else {
                    Vector3::new(0, 0, -FX_ONE)
                };
                Some((t, Intersection { position, normal }))
            }
        }
    }
}

/// A shape with a material, placed in the world by an ordered list of
/// transforms.
#[derive(Debug)]
pub struct Object {
    pub object: Shape,
    pub material: Material,
    pub transforms: Vec<Transform>,
}

pub open spec fn object_wf(obj: Object) -> bool {
    material_wf(obj.material) && forall|i: int|
        0 <= i < obj.transforms@.len() ==> transform_wf(#[trigger] obj.transforms@[i])
}

/// Map a world-space ray into local object space: the inverse of each
/// transform, applied in reverse declaration order.
pub open spec fn ray_to_local_s(ts: Seq<Transform>, ray: Ray) -> Ray
    decreases ts.len(),
{
    if ts.len() == 0 {
        ray
    } else {
        ray_to_local_s(ts.drop_last(), transform_ray_s(inverse_s(ts.last()), ray))
    }
}

/// Map a local-space point to world space: each transform applied in
/// declaration order.
pub open spec fn point_to_world_s(ts: Seq<Transform>, p: Vector3) -> Vector3
    decreases ts.len(),
{
    if ts.len() == 0 {
        p
    } else {
        transform_s(ts.last(), point_to_world_s(ts.drop_last(), p))
    }
}

/// The normal rule for one transform: translations leave normals unchanged,
/// rotations act as on points, scales act through their inverse.
pub open spec fn normal_step_s(t: Transform, p: Vector3) -> Vector3 {
    match t {
        Transform::Translate(_) => p,
        Transform::Rotate(_, _) => transform_s(t, p),
        Transform::Scale(_) => transform_s(inverse_s(t), p),
    }
}

/// Map a local-space normal to world space by the per-transform normal rule,
/// in declaration order (renormalization happens at the end of the walk).
pub open spec fn normal_to_world_s(ts: Seq<Transform>, p: Vector3) -> Vector3
    decreases ts.len(),
{
    if ts.len() == 0 {
        p
    } else {
        normal_step_s(ts.last(), normal_to_world_s(ts.drop_last(), p))
    }
}

/// The full object intersection: test the shape in local space, then carry
/// the position and the normal back to world space.
pub open spec fn object_intersect_s(obj: Object, ray: Ray) -> Option<(i64, Intersection)> {
    let local_ray = ray_to_local_s(obj.transforms@, ray);
    match shape_intersect_s(obj.object, local_ray) {
        None => None,
        Some((t, local)) => Some(
            (
                t,
                Intersection {
                    position: point_to_world_s(obj.transforms@, local.position),
                    normal: v_normalized_s(normal_to_world_s(obj.transforms@, local.normal)),
                },
            ),
        ),
    }
}

impl Renderable for Object {
    open spec fn wf(&self) -> bool {
        object_wf(*self)
    }

    open spec fn intersection_s(&self, ray: Ray) -> Option<(i64, Intersection)> {
        object_intersect_s(*self, ray)
    }

    fn intersection(&self, ray: Ray) -> (r: Option<(i64, Intersection)>)
    {
        let local_ray = ray_to_local(&self.transforms, ray);
        let hit = self.object.intersection(local_ray);
        match hit {
            None => None,
            Some((t, local)) => {
                let position = point_to_world(&self.transforms, local.position);
                let normal = normal_to_world(&self.transforms, local.normal).normalized();
                Some((t, Intersection { position, normal }))
            }
        }
    }
}

/// All transforms in the list are well formed.
pub open spec fn transforms_wf(ts: Seq<Transform>) -> bool {
    forall|i: int| 0 <= i < ts.len() ==> transform_wf(#[trigger] ts[i])
}

fn ray_to_local(ts: &Vec<Transform>, ray: Ray) -> (r: Ray)
    requires
        transforms_wf(ts@),
        ray_wf(ray),
    ensures
        r == ray_to_local_s(ts@, ray),
        ray_wf(r),
{
    let mut local_ray = ray;
    let mut i: usize = ts.len();
    proof {
        assert(ts@.take(ts@.len() as int) =~= ts@);
    }
    while i > 0
        invariant
            transforms_wf(ts@),
            0 <= i <= ts@.len(),
            ray_wf(local_ray),
            ray_to_local_s(ts@, ray) == ray_to_local_s(ts@.take(i as int), local_ray),
        decreases i,
    {
        let t = ts[i - 1];
        proof {
            assert(ts@.take(i as int).drop_last() =~= ts@.take(i as int - 1));
            assert(ts@.take(i as int).last() == ts@[i as int - 1]);
        }
        local_ray = t.inverse().transform_ray(local_ray);
        i = i - 1;
    }
    proof {
        assert(ts@.take(0) =~= Seq::<Transform>::empty());
    }
    local_ray
}

fn point_to_world(ts: &Vec<Transform>, p: Vector3) -> (r: Vector3)
    requires
        transforms_wf(ts@),
        vec_ok(p),
    ensures
        r == point_to_world_s(ts@, p),
        vec_ok(r),
{
    let mut position = p;
    let mut j: usize = 0;
    while j < ts.len()
        invariant
            transforms_wf(ts@),
            0 <= j <= ts@.len(),
            vec_ok(position),
            position == point_to_world_s(ts@.take(j as int), p),
        decreases ts@.len() - j,
    {
        let tr = ts[j];
        proof {
            assert(ts@.take(j as int + 1).drop_last() =~= ts@.take(j as int));
            assert(ts@.take(j as int + 1).last() == ts@[j as int]);
        }
        position = tr.transform(position);
        j = j + 1;
    }
    proof {
        assert(ts@.take(ts@.len() as int) =~= ts@);
    }
    position
}

fn normal_to_world(ts: &Vec<Transform>, p: Vector3) -> (r: Vector3)
    requires
        transforms_wf(ts@),
        vec_ok(p),
    ensures
        r == normal_to_world_s(ts@, p),
        vec_ok(r),
{
    let mut normal = p;
    let mut k: usize = 0;
    while k < ts.len()
        invariant
            transforms_wf(ts@),
            0 <= k <= ts@.len(),
            vec_ok(normal),
            normal == normal_to_world_s(ts@.take(k as int), p),
        decreases ts@.len() - k,
    {
        let tr = ts[k];
        proof {
            assert(ts@.take(k as int + 1).drop_last() =~= ts@.take(k as int));
            assert(ts@.take(k as int + 1).last() == ts@[k as int]);
        }
        normal = match tr {
            Transform::Translate(_) => normal,
            Transform::Rotate(_, _) => tr.transform(normal),
            Transform::Scale(_) => tr.inverse().transform(normal),
        };
        k = k + 1;
    }
    proof {
        assert(ts@.take(ts@.len() as int) =~= ts@);
    }
    normal
}

} // verus!

//! Three-component fixed-point vectors, used both for geometry and for color.

use vstd::prelude::*;

use crate::fx::{
    div_floor, fx_add, fx_add_s, fx_div, fx_div_s, fx_mul, fx_mul_s, fx_neg, fx_neg_s, fx_ok,
    fx_sqrt, fx_sqrt_s, fx_sub, fx_sub_s, sat, sat_128, div_floor_128, FX_MAX, FX_ONE,
};

verus! {

/// A vector (or color) with three fixed-point components.
#[derive(Clone, Copy, Debug, PartialEq, Eq, Structural)]
pub struct Vector3 {
    pub x: i64,
    pub y: i64,
    pub z: i64,
}

/// Every component lies in the representable scalar range.
pub open spec fn vec_ok(v: Vector3) -> bool {
    fx_ok(v.x as int) && fx_ok(v.y as int) && fx_ok(v.z as int)
}

/// Build a vector from mathematical component values known to be in range.
pub open spec fn v3(x: int, y: int, z: int) -> Vector3 {
    Vector3 { x: x as i64, y: y as i64, z: z as i64 }
}

pub open spec fn v_zero() -> Vector3 {
    Vector3 { x: 0, y: 0, z: 0 }
}

pub open spec fn v_one() -> Vector3 {
    Vector3 { x: FX_ONE, y: FX_ONE, z: FX_ONE }
}

pub open spec fn v_add_s(a: Vector3, b: Vector3) -> Vector3 {
    v3(
        fx_add_s(a.x as int, b.x as int),
        fx_add_s(a.y as int, b.y as int),
        fx_add_s(a.z as int, b.z as int),
    )
}

pub open spec fn v_sub_s(a: Vector3, b: Vector3) -> Vector3 {
    v3(
        fx_sub_s(a.x as int, b.x as int),
        fx_sub_s(a.y as int, b.y as int),
        fx_sub_s(a.z as int, b.z as int),
    )
}

pub open spec fn v_neg_s(a: Vector3) -> Vector3 {
    v3(fx_neg_s(a.x as int), fx_neg_s(a.y as int), fx_neg_s(a.z as int))
}

/// Multiplication by a scalar.
pub open spec fn v_scale_s(k: int, a: Vector3) -> Vector3 {
    v3(
        fx_mul_s(k, a.x as int),
        fx_mul_s(k, a.y as int),
        fx_mul_s(k, a.z as int),
    )
}

pub open spec fn v_cmul_s(a: Vector3, b: Vector3) -> Vector3 {
    v3(
        fx_mul_s(a.x as int, b.x as int),
        fx_mul_s(a.y as int, b.y as int),
        fx_mul_s(a.z as int, b.z as int),
    )
}

pub open spec fn v_cdiv_s(a: Vector3, b: Vector3) -> Vector3 {
    v3(
        fx_div_s(a.x as int, b.x as int),
        fx_div_s(a.y as int, b.y as int),
        fx_div_s(a.z as int, b.z as int),
    )
}

/// Dot product: the three products are rescaled individually, then summed and
/// saturated once.
pub open spec fn v_dot_s(a: Vector3, b: Vector3) -> int {
    sat(
        div_floor(a.x as int * b.x as int, FX_ONE as int)
            + div_floor(a.y as int * b.y as int, FX_ONE as int)
            + div_floor(a.z as int * b.z as int, FX_ONE as int),
    )
}

/// Cross product: each component is formed from the exact integer products
/// and rescaled with a single rounding step.
pub open spec fn v_cross_s(a: Vector3, b: Vector3) -> Vector3 {
    v3(
        sat(div_floor(a.y as int * b.z as int - a.z as int * b.y as int, FX_ONE as int)),
        sat(div_floor(a.z as int * b.x as int - a.x as int * b.z as int, FX_ONE as int)),
        sat(div_floor(a.x as int * b.y as int - a.y as int * b.x as int, FX_ONE as int)),
    )
}

pub open spec fn v_sqnorm_s(a: Vector3) -> int {
    v_dot_s(a, a)
}

pub open spec fn v_norm_s(a: Vector3) -> int {
    fx_sqrt_s(v_sqnorm_s(a))
}

/// Normalization divides each component by the norm; a zero vector keeps the
/// saturating-division convention (all components stay zero).
pub open spec fn v_normalized_s(a: Vector3) -> Vector3 {
    v3(
        fx_div_s(a.x as int, v_norm_s(a)),
        fx_div_s(a.y as int, v_norm_s(a)),
        fx_div_s(a.z as int, v_norm_s(a)),
    )
}

/// The squared norm of a well-formed vector is nonnegative.
pub proof fn lemma_sqnorm_nonneg(a: Vector3)
    ensures
        0 <= v_sqnorm_s(a) <= FX_MAX,
{
    lemma_sq_div_nonneg(a.x as int);
    lemma_sq_div_nonneg(a.y as int);
    lemma_sq_div_nonneg(a.z as int);
}

/// Squares rescaled by the (positive) unit stay nonnegative.
proof fn lemma_sq_div_nonneg(c: int)
    ensures
        0 <= div_floor(c * c, FX_ONE as int),
{
    assert(c * c >= 0) by (nonlinear_arith);
    crate::fx::lemma_div_floor_bounds(c * c, FX_ONE as int);
    assert(0 <= div_floor(c * c, FX_ONE as int)) by (nonlinear_arith)
        requires
            FX_ONE as int * div_floor(c * c, FX_ONE as int) <= c * c,
            c * c < FX_ONE as int * (div_floor(c * c, FX_ONE as int) + 1),
            c * c >= 0,
            FX_ONE as int == 65536,
    ;
}

impl Vector3 {
    /// Create a new vector with the given components.
    pub fn new(x: i64, y: i64, z: i64) -> (r: Vector3)
        ensures
            r == (Vector3 { x, y, z }),
    {
        Vector3 { x, y, z }
    }

    /// The zero vector.
    pub fn zeros() -> (r: Vector3)
        ensures
            r == v_zero(),
    {
        Vector3 { x: 0, y: 0, z: 0 }
    }

    /// The all-ones vector.
    pub fn ones() -> (r: Vector3)
        ensures
            r == v_one(),
    {
        Vector3 { x: FX_ONE, y: FX_ONE, z: FX_ONE }
    }

    /// A normalized vector in the direction of `(x, y, z)`.
    pub fn unit(x: i64, y: i64, z: i64) -> (r: Vector3)
        requires
            fx_ok(x as int),
            fx_ok(y as int),
            fx_ok(z as int),
        ensures
            r == v_normalized_s(Vector3 { x, y, z }),
            vec_ok(r),
    {
        Vector3 { x, y, z }.normalized()
    }

    /// The square of the Euclidean norm.
    pub fn squared_norm(self) -> (r: i64)
        requires
            vec_ok(self),
        ensures
            r as int == v_sqnorm_s(self),
            0 <= r,
            fx_ok(r as int),
    {
        let r = self.dot(self);
        proof {
            lemma_sqnorm_nonneg(self);
        }
        r
    }

    /// The Euclidean norm.
    pub fn norm(self) -> (r: i64)
        requires
            vec_ok(self),
        ensures
            r as int == v_norm_s(self),
            0 <= r,
            fx_ok(r as int),
    {
        fx_sqrt(self.squared_norm())
    }

    /// A normalized copy of this vector.
    pub fn normalized(self) -> (r: Vector3)
        requires
            vec_ok(self),
        ensures
            r == v_normalized_s(self),
            vec_ok(r),
    {
        let n = self.norm();
        Vector3 {
            x: fx_div(self.x, n),
            y: fx_div(self.y, n),
            z: fx_div(self.z, n),
        }
    }

    /// Dot product of this vector and `other`.
    pub fn dot(self, other: Vector3) -> (r: i64)
        requires
            vec_ok(self),
            vec_ok(other),
        ensures
            r as int == v_dot_s(self, other),
            fx_ok(r as int),
    {
        proof {
            lemma_wide_product(self.x as int, other.x as int);
            lemma_wide_product(self.y as int, other.y as int);
            lemma_wide_product(self.z as int, other.z as int);
        }
        let px = div_floor_128((self.x as i128) * (other.x as i128), FX_ONE as i128);
        let py = div_floor_128((self.y as i128) * (other.y as i128), FX_ONE as i128);
        let pz = div_floor_128((self.z as i128) * (other.z as i128), FX_ONE as i128);
        sat_128(px + py + pz)
    }

    /// Cross product of this vector and `other`.
    pub fn cross(self, other: Vector3) -> (r: Vector3)
        requires
            vec_ok(self),
            vec_ok(other),
        ensures
            r == v_cross_s(self, other),
            vec_ok(r),
    {
        proof {
            lemma_wide_product(self.x as int, other.x as int);
            lemma_wide_product(self.y as int, other.y as int);
            lemma_wide_product(self.z as int, other.z as int);
            lemma_wide_product(self.x as int, other.y as int);
            lemma_wide_product(self.y as int, other.z as int);
            lemma_wide_product(self.z as int, other.x as int);
            lemma_wide_product(self.x as int, other.z as int);
            lemma_wide_product(self.y as int, other.x as int);
            lemma_wide_product(self.z as int, other.y as int);
        }
        let cx = (self.y as i128) * (other.z as i128) - (self.z as i128) * (other.y as i128);
        let cy = (self.z as i128) * (other.x as i128) - (self.x as i128) * (other.z as i128);
        let cz = (self.x as i128) * (other.y as i128) - (self.y as i128) * (other.x as i128);
        Vector3 {
            x: sat_128(div_floor_128(cx, FX_ONE as i128)),
            y: sat_128(div_floor_128(cy, FX_ONE as i128)),
            z: sat_128(div_floor_128(cz, FX_ONE as i128)),
        }
    }

    /// Apply a component-wise binary operation to the paired components.
    pub fn cwise<F: Fn(i64, i64) -> i64>(self, other: Vector3, f: F) -> (r: Vector3)
        requires
            call_requires(f, (self.x, other.x)),
            call_requires(f, (self.y, other.y)),
            call_requires(f, (self.z, other.z)),
        ensures
            call_ensures(f, (self.x, other.x), r.x),
            call_ensures(f, (self.y, other.y), r.y),
            call_ensures(f, (self.z, other.z), r.z),
    {
        let rx = f(self.x, other.x);
        let ry = f(self.y, other.y);
        let rz = f(self.z, other.z);
        Vector3 { x: rx, y: ry, z: rz }
    }

    /// Component-wise multiplication.
    pub fn cwise_mul(self, other: Vector3) -> (r: Vector3)
        requires
            vec_ok(self),
            vec_ok(other),
        ensures
            r == v_cmul_s(self, other),
            vec_ok(r),
    {
        Vector3 {
            x: fx_mul(self.x, other.x),
            y: fx_mul(self.y, other.y),
            z: fx_mul(self.z, other.z),
        }
    }

    /// Component-wise division.
    pub fn cwise_div(self, other: Vector3) -> (r: Vector3)
        requires
            vec_ok(self),
            vec_ok(other),
        ensures
            r == v_cdiv_s(self, other),
            vec_ok(r),
    {
        Vector3 {
            x: fx_div(self.x, other.x),
            y: fx_div(self.y, other.y),
            z: fx_div(self.z, other.z),
        }
    }

    /// The `x` component.
    pub fn x(self) -> (r: i64)
        ensures
            r == self.x,
    {
        self.x
    }

    /// The `y` component.
    pub fn y(self) -> (r: i64)
        ensures
            r == self.y,
    {
        self.y
    }

    /// The `z` component.
    pub fn z(self) -> (r: i64)
        ensures
            r == self.z,
    {
        self.z
    }

    /// Component-wise sum.
    pub fn add(self, other: Vector3) -> (r: Vector3)
        requires
            vec_ok(self),
            vec_ok(other),
        ensures
            r == v_add_s(self, other),
            vec_ok(r),
    {
        Vector3 {
            x: fx_add(self.x, other.x),
            y: fx_add(self.y, other.y),
            z: fx_add(self.z, other.z),
        }
    }

    /// Component-wise difference.
    pub fn sub(self, other: Vector3) -> (r: Vector3)
        requires
            vec_ok(self),
            vec_ok(other),
        ensures
            r == v_sub_s(self, other),
            vec_ok(r),
    {
        Vector3 {
            x: fx_sub(self.x, other.x),
            y: fx_sub(self.y, other.y),
            z: fx_sub(self.z, other.z),
        }
    }

    /// Multiplication by a scalar.
    pub fn scale(self, k: i64) -> (r: Vector3)
        requires
            vec_ok(self),
            fx_ok(k as int),
        ensures
            r == v_scale_s(k as int, self),
            vec_ok(r),
    {
        Vector3 {
            x: fx_mul(k, self.x),
            y: fx_mul(k, self.y),
            z: fx_mul(k, self.z),
        }
    }

    /// Component-wise negation.
    pub fn neg(self) -> (r: Vector3)
        requires
            vec_ok(self),
        ensures
            r == v_neg_s(self),
            vec_ok(r),
    {
        Vector3 {
            x: fx_neg(self.x),
            y: fx_neg(self.y),
            z: fx_neg(self.z),
        }
    }
}

/// Products of well-formed scalars fit comfortably in the wide intermediate
/// range.
proof fn lemma_wide_product(a: int, b: int)
    requires
        fx_ok(a),
        fx_ok(b),
    ensures
        -0x20000000000000000000000000000000 <= a * b <= 0x20000000000000000000000000000000,
{
    assert(-0x20000000000000000000000000000000 <= a * b <= 0x20000000000000000000000000000000)
        by (nonlinear_arith)
        requires
            -140737488355328 <= a <= 140737488355328,
            -140737488355328 <= b <= 140737488355328,
    ;
}

} // verus!

//! Random sampling: a uniform unit-interval source backed by an outside
//! generator, and the derived samplers the lighting estimator draws from.

use vstd::prelude::*;

use rand::Rng;

use crate::fx::{fx_ok, FX_ONE};
use crate::vector::{v_dot_s, vec_ok, Vector3};

verus! {

/// Relies on rand's thread-local generator: `gen_range(0..FX_ONE)` returns
/// a uniformly distributed integer in `[0, FX_ONE)`, one independent draw
/// per call.
#[verifier::external_body]
pub fn uniform() -> (r: i64)
    ensures
        0 <= r < FX_ONE,
{
    rand::thread_rng().gen_range(0..FX_ONE)
}

/// An approximately standard-normal sample: the centered sum of twelve
/// uniform unit samples (the Irwin-Hall construction), which has mean zero
/// and unit variance.
pub fn normal() -> (r: i64)
    ensures
        -(6 * FX_ONE) <= r <= 6 * FX_ONE,
        fx_ok(r as int),
{
    let mut acc: i64 = 0;
    let mut i: usize = 0;
    while i < 12
        invariant
            0 <= i <= 12,
            0 <= acc <= i * (FX_ONE as int),
        decreases 12 - i,
    {
        acc = acc + uniform();
        i = i + 1;
    }
    acc - 6 * FX_ONE
}

/// What the hemisphere sampler guarantees: a well-formed direction strictly
/// above the surface, or the surface normal itself as the fallback when
/// rejection sampling keeps failing (vanishingly unlikely).
pub open spec fn hemi_ok(dir: Vector3, n: Vector3) -> bool {
    vec_ok(dir) && (v_dot_s(dir, n) > 0 || dir == n)
}

/// Rejection-sample a unit direction in the hemisphere above the surface
/// with normal `n`: draw three independent normal samples, normalize, and
/// retry while the result does not point away from the surface.
pub fn sample_hemisphere(n: Vector3) -> (d: Vector3)
    requires
        vec_ok(n),
    ensures
        hemi_ok(d, n),
{
    let mut tries: usize = 0;
    while tries < 64
        invariant
            vec_ok(n),
            tries <= 64,
        decreases 64 - tries,
    {
        let dir = Vector3::new(normal(), normal(), normal()).normalized();
        if dir.dot(n) > 0 {
            return dir;
        }
        tries = tries + 1;
    }
    n
}

} // verus!

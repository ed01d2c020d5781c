//! Fixed-point scalar arithmetic.
//!
//! Every scalar in this library is a signed 64-bit multiple of `1/FX_ONE`,
//! so a raw value `x` stands for the real number `x / 65536`. All operations
//! round toward negative infinity and saturate at `FX_MAX` in magnitude, so
//! they are total over well-formed inputs and never overflow.

use vstd::prelude::*;
use vstd::arithmetic::div_mod::{
    lemma_fundamental_div_mod, lemma_fundamental_div_mod_converse, lemma_mod_pos_bound,
};

verus! {

/// The raw value that stands for the real number one.
pub const FX_ONE: i64 = 65536;

/// Largest raw magnitude a scalar may take (2^47); arithmetic saturates here.
pub const FX_MAX: i64 = 140737488355328;

/// A raw scalar is well formed when it lies in the representable range.
pub open spec fn fx_ok(x: int) -> bool {
    -FX_MAX <= x <= FX_MAX
}

/// Saturate a mathematical value into the representable range.
pub open spec fn sat(x: int) -> int {
    if x > FX_MAX {
        FX_MAX as int
    } else if x < -(FX_MAX as int) {
        -(FX_MAX as int)
    } else {
        x
    }
}

/// Mathematical floor division (round toward negative infinity), any sign of
/// the nonzero divisor.
pub open spec fn div_floor(a: int, b: int) -> int {
    if b >= 0 {
        a / b
    } else {
        (-a) / (-b)
    }
}

pub open spec fn fx_add_s(a: int, b: int) -> int {
    sat(a + b)
}

pub open spec fn fx_sub_s(a: int, b: int) -> int {
    sat(a - b)
}

pub open spec fn fx_neg_s(a: int) -> int {
    sat(-a)
}

pub open spec fn fx_mul_s(a: int, b: int) -> int {
    sat(div_floor(a * b, FX_ONE as int))
}

/// Division of one scalar by another. A zero divisor saturates with the sign
/// of the dividend, the fixed-point analogue of the infinities the real
/// formulas would produce.
pub open spec fn fx_div_s(a: int, b: int) -> int {
    if b == 0 {
        if a > 0 {
            FX_MAX as int
        } else if a < 0 {
            -(FX_MAX as int)
        } else {
            0
        }
    } else {
        sat(div_floor(a * FX_ONE, b))
    }
}

/// Division of a scalar by a plain positive integer (used for the fixed
/// integer coefficients of polynomial approximations).
pub open spec fn fx_divi_s(a: int, k: int) -> int {
    div_floor(a, k)
}

/// Clamp a scalar to the closed interval `[lo, hi]`.
pub open spec fn fx_clamp_s(x: int, lo: int, hi: int) -> int {
    if x < lo {
        lo
    } else if x > hi {
        hi
    } else {
        x
    }
}

/// Floor of the square root of a nonnegative integer (zero below zero),
/// defined by recursion and characterized by `lemma_isqrt_bounds`.
pub open spec fn isqrt_s(n: int) -> int
    decreases n,
{
    if n <= 0 {
        0
    } else {
        let r = isqrt_s(n - 1);
        if (r + 1) * (r + 1) <= n {
            r + 1
        } else {
            r
        }
    }
}

/// Square root of a nonnegative scalar: `fx_sqrt_s(x)/FX_ONE` is the floor,
/// at fixed-point granularity, of the real square root of `x/FX_ONE`.
pub open spec fn fx_sqrt_s(x: int) -> int {
    isqrt_s(x * FX_ONE)
}

pub proof fn lemma_isqrt_bounds(n: int)
    requires
        n >= 0,
    ensures
        0 <= isqrt_s(n),
        isqrt_s(n) * isqrt_s(n) <= n,
        n < (isqrt_s(n) + 1) * (isqrt_s(n) + 1),
    decreases n,
{
    if n > 0 {
        lemma_isqrt_bounds(n - 1);
        let r = isqrt_s(n - 1);
        if (r + 1) * (r + 1) <= n {
            assert((r + 2) * (r + 2) > n) by (nonlinear_arith)
                requires
                    (r + 1) * (r + 1) > n - 1,
                    r >= 0,
            ;
        }
    }
}

pub proof fn lemma_isqrt_unique(n: int, r: int)
    requires
        0 <= r,
        r * r <= n,
        n < (r + 1) * (r + 1),
    ensures
        isqrt_s(n) == r,
{
    let s = isqrt_s(n);
    lemma_isqrt_bounds(n);
    if s < r {
        assert((s + 1) * (s + 1) <= r * r) by (nonlinear_arith)
            requires
                s + 1 <= r,
                s >= 0,
        ;
    }
    if s > r {
        assert((r + 1) * (r + 1) <= s * s) by (nonlinear_arith)
            requires
                r + 1 <= s,
                r >= 0,
        ;
    }
}

pub proof fn lemma_isqrt_monotone(m: int, n: int)
    requires
        0 <= m <= n,
    ensures
        isqrt_s(m) <= isqrt_s(n),
{
    let a = isqrt_s(m);
    let b = isqrt_s(n);
    lemma_isqrt_bounds(m);
    lemma_isqrt_bounds(n);
    if a > b {
        assert((b + 1) * (b + 1) <= a * a) by (nonlinear_arith)
            requires
                b + 1 <= a,
                b >= 0,
        ;
    }
}

/// The floor quotient lies within one divisor step below the exact quotient.
pub proof fn lemma_div_floor_bounds(a: int, b: int)
    requires
        b > 0,
    ensures
        b * div_floor(a, b) <= a,
        a < b * (div_floor(a, b) + 1),
{
    vstd::arithmetic::div_mod::lemma_fundamental_div_mod(a, b);
    vstd::arithmetic::div_mod::lemma_mod_bound(a, b);
    assert(b * div_floor(a, b) <= a && a < b * (div_floor(a, b) + 1)) by (nonlinear_arith)
        requires
            a == b * (a / b) + (a % b),
            0 <= a % b < b,
            div_floor(a, b) == a / b,
    ;
}

/// Floor of the cube root of a nonnegative integer (zero below zero),
/// defined by recursion and characterized by `lemma_icbrt_bounds`.
pub open spec fn icbrt_s(n: int) -> int
    decreases n,
{
    if n <= 0 {
        0
    } else {
        let r = icbrt_s(n - 1);
        if (r + 1) * (r + 1) * (r + 1) <= n {
            r + 1
        } else {
            r
        }
    }
}

pub proof fn lemma_icbrt_bounds(n: int)
    requires
        n >= 0,
    ensures
        0 <= icbrt_s(n),
        icbrt_s(n) * icbrt_s(n) * icbrt_s(n) <= n,
        n < (icbrt_s(n) + 1) * (icbrt_s(n) + 1) * (icbrt_s(n) + 1),
    decreases n,
{
    if n > 0 {
        lemma_icbrt_bounds(n - 1);
        let r = icbrt_s(n - 1);
        if (r + 1) * (r + 1) * (r + 1) <= n {
            assert((r + 2) * (r + 2) * (r + 2) > n) by (nonlinear_arith)
                requires
                    (r + 1) * (r + 1) * (r + 1) > n - 1,
                    r >= 0,
            ;
        }
    }
}

pub proof fn lemma_icbrt_unique(n: int, r: int)
    requires
        0 <= r,
        r * r * r <= n,
        n < (r + 1) * (r + 1) * (r + 1),
    ensures
        icbrt_s(n) == r,
{
    let s = icbrt_s(n);
    lemma_icbrt_bounds(n);
    if s < r {
        assert((s + 1) * (s + 1) * (s + 1) <= r * r * r) by (nonlinear_arith)
            requires
                s + 1 <= r,
                s >= 0,
        ;
    }
    if s > r {
        assert((r + 1) * (r + 1) * (r + 1) <= s * s * s) by (nonlinear_arith)
            requires
                r + 1 <= s,
                r >= 0,
        ;
    }
}

pub proof fn lemma_icbrt_monotone(m: int, n: int)
    requires
        0 <= m <= n,
    ensures
        icbrt_s(m) <= icbrt_s(n),
{
    let a = icbrt_s(m);
    let b = icbrt_s(n);
    lemma_icbrt_bounds(m);
    lemma_icbrt_bounds(n);
    if a > b {
        assert((b + 1) * (b + 1) * (b + 1) <= a * a * a) by (nonlinear_arith)
            requires
                b + 1 <= a,
                b >= 0,
        ;
    }
}

/// Floor division of a wide intermediate by a positive divisor.
pub(crate) fn div_floor_128(p: i128, d: i128) -> (q: i128)
    requires
        d > 0,
        -0x40000000000000000000000000000000 <= p <= 0x40000000000000000000000000000000,
    ensures
        q as int == div_floor(p as int, d as int),
        p >= 0 ==> 0 <= q <= p,
        p < 0 ==> p <= q <= 0,
{
    let qt = p / d;
    let rt = p % d;
    proof {
        if p >= 0 {
            assert(qt as int == p as int / d as int);
        } else {
            let m = -(p as int);
            lemma_fundamental_div_mod(m, d as int);
            lemma_mod_pos_bound(m, d as int);
            let mq = m / (d as int);
            let mr = m % (d as int);
            assert(qt as int == -mq);
            assert(rt as int == -mr);
            assert(m == (d as int) * mq + mr);
            if mr == 0 {
                assert(p as int == (-mq) * (d as int) + 0) by (nonlinear_arith)
                    requires
                        p as int == -((d as int) * mq + 0),
                ;
                lemma_fundamental_div_mod_converse(p as int, d as int, -mq, 0);
            } else {
                assert(p as int == (-mq - 1) * (d as int) + (d as int - mr)) by (nonlinear_arith)
                    requires
                        p as int == -((d as int) * mq + mr),
                ;
                lemma_fundamental_div_mod_converse(p as int, d as int, -mq - 1, d as int - mr);
            }
        }
        if p >= 0 {
            assert(0 <= p as int / d as int <= p as int) by (nonlinear_arith)
                requires
                    p >= 0,
                    d >= 1,
            ;
        } else {
            assert(p as int <= p as int / d as int <= 0) by (nonlinear_arith)
                requires
                    p < 0,
                    d >= 1,
            ;
        }
    }
    if rt < 0 {
        qt - 1
    } else {
        qt
    }
}

/// Saturate a wide intermediate into a well-formed scalar.
pub(crate) fn sat_128(q: i128) -> (r: i64)
    ensures
        r as int == sat(q as int),
        fx_ok(r as int),
{
    if q > FX_MAX as i128 {
        FX_MAX
    } else if q < -(FX_MAX as i128) {
        -FX_MAX
    } else {
        q as i64
    }
}

/// Saturating addition.
pub fn fx_add(a: i64, b: i64) -> (r: i64)
    requires
        fx_ok(a as int),
        fx_ok(b as int),
    ensures
        r as int == fx_add_s(a as int, b as int),
        fx_ok(r as int),
{
    let s = a + b;
    if s > FX_MAX {
        FX_MAX
    } else if s < -FX_MAX {
        -FX_MAX
    } else {
        s
    }
}

/// Saturating subtraction.
pub fn fx_sub(a: i64, b: i64) -> (r: i64)
    requires
        fx_ok(a as int),
        fx_ok(b as int),
    ensures
        r as int == fx_sub_s(a as int, b as int),
        fx_ok(r as int),
{
    let s = a - b;
    if s > FX_MAX {
        FX_MAX
    } else if s < -FX_MAX {
        -FX_MAX
    } else {
        s
    }
}

/// Negation.
pub fn fx_neg(a: i64) -> (r: i64)
    requires
        fx_ok(a as int),
    ensures
        r as int == fx_neg_s(a as int),
        fx_ok(r as int),
{
    -a
}

/// Saturating fixed-point multiplication, rounding toward negative infinity.
pub fn fx_mul(a: i64, b: i64) -> (r: i64)
    requires
        fx_ok(a as int),
        fx_ok(b as int),
    ensures
        r as int == fx_mul_s(a as int, b as int),
        fx_ok(r as int),
{
    proof {
        assert(-0x40000000000000000000000000000000 <= (a as int) * (b as int)
            <= 0x40000000000000000000000000000000) by (nonlinear_arith)
            requires
                -140737488355328 <= a as int <= 140737488355328,
                -140737488355328 <= b as int <= 140737488355328,
        ;
    }
    let p = (a as i128) * (b as i128);
    let q = div_floor_128(p, FX_ONE as i128);
    sat_128(q)
}

/// Saturating fixed-point division, rounding toward negative infinity; a zero
/// divisor saturates with the sign of the dividend.
pub fn fx_div(a: i64, b: i64) -> (r: i64)
    requires
        fx_ok(a as int),
        fx_ok(b as int),
    ensures
        r as int == fx_div_s(a as int, b as int),
        fx_ok(r as int),
{
    if b == 0 {
        if a > 0 {
            FX_MAX
        } else if a < 0 {
            -FX_MAX
        } else {
            0
        }
    } else {
        proof {
            assert(-0x40000000000000000000000000000000 <= (a as int) * (FX_ONE as int)
                <= 0x40000000000000000000000000000000) by (nonlinear_arith)
                requires
                    -140737488355328 <= a as int <= 140737488355328,
                    FX_ONE as int == 65536,
            ;
        }
        let p = (a as i128) * (FX_ONE as i128);
        if b < 0 {
            let q = div_floor_128(-p, -(b as i128));
            sat_128(q)
        } else {
            let q = div_floor_128(p, b as i128);
            sat_128(q)
        }
    }
}

/// Division of a scalar by a plain positive integer, rounding toward negative
/// infinity. The result never grows in magnitude, so it stays well formed.
pub fn fx_divi(a: i64, k: i64) -> (r: i64)
    requires
        fx_ok(a as int),
        k > 0,
    ensures
        r as int == fx_divi_s(a as int, k as int),
        fx_ok(r as int),
{
    let q = div_floor_128(a as i128, k as i128);
    proof {
        if a >= 0 {
            assert(0 <= (a as int) / (k as int) <= a as int) by (nonlinear_arith)
                requires
                    a >= 0,
                    k >= 1,
            ;
        } else {
            assert(a as int <= (a as int) / (k as int) <= 0) by (nonlinear_arith)
                requires
                    a < 0,
                    k >= 1,
            ;
        }
    }
    q as i64
}

/// Convert a pixel count into a scalar, saturating far above any usable
/// resolution.
pub fn fx_from_u32(u: u32) -> (r: i64)
    ensures
        r as int == sat(u as int * FX_ONE as int),
        fx_ok(r as int),
{
    let wide = (u as i64) * FX_ONE;
    if wide > FX_MAX {
        FX_MAX
    } else {
        wide
    }
}

/// Clamp a scalar to `[lo, hi]`.
pub fn fx_clamp(x: i64, lo: i64, hi: i64) -> (r: i64)
    requires
        lo <= hi,
    ensures
        r as int == fx_clamp_s(x as int, lo as int, hi as int),
{
    if x < lo {
        lo
    } else if x > hi {
        hi
    } else {
        x
    }
}

/// Floor of the square root of a 64-bit natural number, by bisection.
fn isqrt_64(n: u64) -> (r: u64)
    ensures
        r * r <= n,
        n < (r + 1) * (r + 1),
{
    if n == 0 {
        return 0;
    }
    let mut lo: u64 = 0;
    let mut hi: u64 = 4294967296;
    while hi - lo > 1
        invariant
            0 <= lo < hi <= 4294967296,
            lo * lo <= n as int,
            (n as int) < hi * hi,
        decreases hi - lo,
    {
        let mid = lo + (hi - lo) / 2;
        proof {
            assert(mid * mid < 0x10000000000000000) by (nonlinear_arith)
                requires
                    0 <= mid <= 4294967295,
            ;
        }
        if mid * mid <= n {
            lo = mid;
        } else {
            hi = mid;
        }
    }
    lo
}

/// Floor of the square root of a bounded wide natural number, by bisection.
pub(crate) fn isqrt_wide(n: u64) -> (r: u64)
    ensures
        r as int == isqrt_s(n as int),
        r * r <= n,
        n < (r + 1) * (r + 1),
{
    let r = isqrt_64(n);
    proof {
        lemma_isqrt_unique(n as int, r as int);
    }
    r
}

/// Floor of the cube root of a bounded wide natural number, by bisection.
pub(crate) fn icbrt_wide(n: u128) -> (r: u128)
    requires
        n < 0x1000000000000000000000000000,
    ensures
        r as int == icbrt_s(n as int),
        r * r * r <= n,
        (n as int) < (r + 1) * (r + 1) * (r + 1),
        r < 0x1000000000,
{
    let mut lo: u128 = 0;
    let mut hi: u128 = 0x1000000000;
    proof {
        assert(0x1000000000int * 0x1000000000 * 0x1000000000 == 0x1000000000000000000000000000)
            by (nonlinear_arith);
    }
    while hi - lo > 1
        invariant
            0 <= lo < hi <= 0x1000000000,
            lo * lo * lo <= n as int,
            (n as int) < hi * hi * hi,
        decreases hi - lo,
    {
        let mid = lo + (hi - lo) / 2;
        proof {
            assert(mid * mid <= 0x1000000000000000000 && mid * mid * mid
                < 0x1000000000000000000000000000) by (nonlinear_arith)
                requires
                    0 <= mid < 0x1000000000,
            ;
        }
        if mid * mid * mid <= n {
            lo = mid;
        } else {
            hi = mid;
        }
    }
    proof {
        lemma_icbrt_unique(n as int, lo as int);
    }
    lo
}

/// Convert a sample count into a scalar, saturating far above any usable
/// count.
pub fn fx_from_usize(n: usize) -> (r: i64)
    ensures
        r as int == sat(n as int * FX_ONE as int),
        fx_ok(r as int),
{
    proof {
        assert((n as int) * (FX_ONE as int) < 0x100000000000000000000000000000000)
            by (nonlinear_arith)
            requires
                0 <= n as int,
                (n as int) < 0x10000000000000000,
                FX_ONE as int == 65536,
        ;
    }
    let wide = (n as u128) * (FX_ONE as u128);
    if wide > FX_MAX as u128 {
        FX_MAX
    } else {
        wide as i64
    }
}

/// Fixed-point square root of a nonnegative scalar, rounding toward zero at
/// fixed-point granularity.
pub fn fx_sqrt(x: i64) -> (r: i64)
    requires
        0 <= x,
        fx_ok(x as int),
    ensures
        r as int == fx_sqrt_s(x as int),
        0 <= r,
        fx_ok(r as int),
{
    proof {
        assert((x as int) * (FX_ONE as int) <= 0x8000000000000000) by (nonlinear_arith)
            requires
                0 <= x as int <= 140737488355328,
                FX_ONE as int == 65536,
        ;
    }
    let n = (x as u64) * (FX_ONE as u64);
    let r = isqrt_64(n);
    proof {
        lemma_isqrt_unique(n as int, r as int);
        assert(r * r <= n <= 0x8000000000000000);
        if r > 0x100000000 {
            assert(r * r > 0x8000000000000000) by (nonlinear_arith)
                requires
                    r >= 0x100000001,
            ;
        }
    }
    r as i64
}

} // verus!

//! Vector algebra behaviour, expressed at fixed-point scale: one raw unit
//! is 65536.

use raytracer::vector::Vector3;

const S: i64 = 65536;

#[test]
fn test_vector_init() {
    let new_zeros = Vector3::new(0, 0, 0);
    let zeros = Vector3::zeros();
    assert_eq!(new_zeros, zeros);

    let new_ones = Vector3::new(S, S, S);
    let ones = Vector3::ones();
    assert_eq!(new_ones, ones);
}

#[test]
fn test_norm() {
    let test1 = Vector3::new(S, 2 * S, 2 * S);
    let test2 = Vector3::new(2 * S, 3 * S, 6 * S);

    let sq_norm = test1.squared_norm();
    let norm = test1.norm();
    assert_eq!(sq_norm, 9 * S);
    assert_eq!(norm, 3 * S);

    let sq_norm = test2.squared_norm();
    let norm = test2.norm();
    assert_eq!(sq_norm, 49 * S);
    assert_eq!(norm, 7 * S);
}

#[test]
fn test_normalize_unit() {
    let test1 = Vector3::new(S, 2 * S, 2 * S);
    let test2 = Vector3::new(2 * S, 3 * S, 6 * S);

    let unit1 = Vector3::unit(S, 2 * S, 2 * S);
    let unit2 = Vector3::unit(2 * S, 3 * S, 6 * S);

    let normalized = test1.normalized();
    assert_eq!(normalized, unit1);

    let normalized = test2.normalized();
    assert_eq!(normalized, unit2);
}

#[test]
fn test_dot() {
    let test1 = Vector3::new(S, 2 * S, 2 * S);
    let test2 = Vector3::new(2 * S, 3 * S, 6 * S);
    let test3 = Vector3::new(S, 4 * S, 8 * S);

    let dot = test1.dot(test2);
    assert_eq!(20 * S, dot);

    let dot = test2.dot(test3);
    assert_eq!(62 * S, dot);
}

#[test]
fn test_cross() {
    let unit_x = Vector3::new(S, 0, 0);
    let unit_y = Vector3::new(0, S, 0);
    let unit_z = Vector3::new(0, 0, S);

    let cross = unit_x.cross(unit_y);
    assert_eq!(unit_z, cross);

    let cross = unit_y.cross(unit_z);
    assert_eq!(unit_x, cross);

    let cross = unit_z.cross(unit_x);
    assert_eq!(unit_y, cross);

    let v1 = Vector3::new(S, 2 * S, 3 * S);
    let v2 = Vector3::new(-S, 10 * S, S);
    let v3 = Vector3::new(-28 * S, -4 * S, 12 * S);
    let cross = v1.cross(v2);
    assert_eq!(v3, cross);
}

#[test]
fn test_cwise() {
    let test1 = Vector3::new(S, S, S);
    let test2 = Vector3::new(S, 2 * S, 4 * S);
    let mul = Vector3::new(S, 2 * S, 4 * S);
    let div = Vector3::new(S, S / 2, S / 4);

    let cwise_mul = test1.cwise_mul(test2);
    let cwise_div = test1.cwise_div(test2);
    assert_eq!(mul, cwise_mul);
    assert_eq!(div, cwise_div);
}

#[test]
fn test_ops() {
    let test1 = Vector3::new(S, S, S);
    let test2 = Vector3::new(S, 2 * S, 4 * S);
    let test3 = Vector3::new(2 * S, 3 * S, 5 * S);
    let test4 = Vector3::new(2 * S, 4 * S, 8 * S);
    let test5 = Vector3::new(-S, -2 * S, -4 * S);

    let sum = test1.add(test2);
    assert_eq!(test3, sum);

    let diff = test3.sub(test2);
    assert_eq!(test1, diff);

    let mulr = test2.scale(2 * S);
    assert_eq!(test4, mulr);

    let mull = test2.scale(2 * S);
    assert_eq!(test4, mull);

    let neg = test2.neg();
    assert_eq!(test5, neg);
}

#[test]
fn test_cwise_closure() {
    let a = Vector3::new(3 * S, -2 * S, 7);
    let b = Vector3::new(S, 5 * S, -7);
    let picked = a.cwise(b, |x: i64, y: i64| -> i64 { if x < y { x } else { y } });
    assert_eq!(picked, Vector3::new(S, -2 * S, -7));
}

#[test]
fn test_normalized_norm_near_one() {
    // A normalized vector of at least unit length has norm one up to
    // fixed-point rounding (shorter vectors lose relative precision).
    for v in [
        Vector3::new(S, 2 * S, 2 * S),
        Vector3::new(3 * S, 4 * S, 0),
        Vector3::new(-7 * S, S / 2, 13 * S),
        Vector3::new(S / 2, -S / 3, 6 * S / 5),
        Vector3::new(-S, -S, -S),
    ] {
        let n = v.normalized().norm();
        assert!((n - S).abs() <= 8, "norm of normalized vector was {n}");
    }
}

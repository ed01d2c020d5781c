//! End-to-end behaviour of shapes, transforms, materials, the scene
//! estimator, the renderer and the gamma curve, at fixed-point scale.

use raytracer::material::Material;
use raytracer::object::{Object, Renderable, Shape};
use raytracer::random::{normal, sample_hemisphere, uniform};
use raytracer::scene::{srgb_gamma, Scene};
use raytracer::transform::Transform;
use raytracer::vector::Vector3;
use raytracer::{Camera, Ray};

const S: i64 = 65536;

#[test]
fn sphere_hit_from_outside() {
    // Unit sphere, ray from (0, 0, -5) along +z: t = 4, position and normal
    // at (0, 0, -1).
    let ray = Ray::new(Vector3::new(0, 0, -5 * S), Vector3::new(0, 0, S));
    let hit = Shape::Sphere.intersection(ray);
    let (t, intersection) = hit.expect("the ray aims at the sphere");
    assert_eq!(t, 4 * S);
    assert_eq!(intersection.position, Vector3::new(0, 0, -S));
    assert_eq!(intersection.normal, Vector3::new(0, 0, -S));
}

#[test]
fn sphere_hit_from_inside_keeps_near_root() {
    // From the center along +x the near root lies behind the ray; the test
    // pins the near-root-only policy down: the hit is reported at t = -1.
    let ray = Ray::new(Vector3::new(0, 0, 0), Vector3::new(S, 0, 0));
    let hit = Shape::Sphere.intersection(ray);
    let (t, intersection) = hit.expect("the quadratic has real roots");
    assert_eq!(t, -S);
    assert_eq!(intersection.position, Vector3::new(-S, 0, 0));
}

#[test]
fn plane_parallel_ray_misses() {
    let ray = Ray::new(Vector3::new(0, 0, S), Vector3::new(S, 0, 0));
    assert!(Shape::Plane.intersection(ray).is_none());
}

#[test]
fn plane_straight_hit() {
    let ray = Ray::new(Vector3::new(S / 2, -S / 2, 3 * S), Vector3::new(0, 0, -S));
    let (t, intersection) = Shape::Plane.intersection(ray).expect("the ray aims at the plane");
    assert_eq!(t, 3 * S);
    assert_eq!(intersection.position, Vector3::new(S / 2, -S / 2, 0));
    assert_eq!(intersection.normal, Vector3::new(0, 0, S));
}

#[test]
fn plane_hit_outside_bounds_misses() {
    let ray = Ray::new(Vector3::new(3 * S, 0, 3 * S), Vector3::new(0, 0, -S));
    assert!(Shape::Plane.intersection(ray).is_none());
}

#[test]
fn translate_round_trip_is_exact() {
    let t = Transform::Translate(Vector3::new(S, 2 * S, 3 * S));
    let p = Vector3::new(4 * S, 5 * S, 6 * S);
    assert_eq!(t.inverse().transform(t.transform(p)), p);
}

#[test]
fn scale_round_trip_is_exact_on_powers_of_two() {
    let t = Transform::Scale(Vector3::new(2 * S, 2 * S, S / 2));
    let p = Vector3::new(3 * S, 5 * S, 4 * S);
    assert_eq!(t.inverse().transform(t.transform(p)), p);
}

#[test]
fn rotate_round_trip_is_close() {
    let quarter_turn: i64 = 102944;
    let t = Transform::Rotate(Vector3::new(0, 0, S), quarter_turn);
    let p = Vector3::new(S, 0, 0);
    let back = t.inverse().transform(t.transform(p));
    assert!((back.x() - p.x()).abs() <= 256);
    assert!((back.y() - p.y()).abs() <= 256);
    assert!((back.z() - p.z()).abs() <= 256);
}

#[test]
fn rotate_quarter_turn_moves_x_to_y() {
    let quarter_turn: i64 = 102944;
    let t = Transform::Rotate(Vector3::new(0, 0, S), quarter_turn);
    let spun = t.transform(Vector3::new(S, 0, 0));
    assert!(spun.x().abs() <= 64);
    assert!((spun.y() - S).abs() <= 64);
    assert_eq!(spun.z(), 0);
}

#[test]
fn scaled_translated_sphere_intersection() {
    // A sphere shrunk to radius one half and pushed five units out: the
    // axial ray meets it at t = 4.5.
    let obj = Object {
        object: Shape::Sphere,
        material: Material::Diffuse { color: Vector3::new(S, S, S) },
        transforms: vec![
            Transform::Scale(Vector3::new(S / 2, S / 2, S / 2)),
            Transform::Translate(Vector3::new(0, 0, 5 * S)),
        ],
    };
    let ray = Ray::new(Vector3::new(0, 0, 0), Vector3::new(0, 0, S));
    let (t, intersection) = obj.intersection(ray).expect("the axial ray hits the sphere");
    assert_eq!(t, 4 * S + S / 2);
    assert_eq!(intersection.position, Vector3::new(0, 0, 4 * S + S / 2));
    assert_eq!(intersection.normal, Vector3::new(0, 0, -S));
}

#[test]
fn emissive_lighting_ignores_surroundings() {
    // An emissive material returns color times intensity whatever the
    // scene, view, position or bounce budget.
    let mat = Material::Emissive { color: Vector3::new(S, S, S), intensity: 2 * S };
    let scene = Scene { camera: Camera { focal_len: S, width: 2 * S }, objects: Vec::new() };
    let out = mat.lighting(
        Vector3::new(0, 0, S),
        Vector3::new(3 * S, -2 * S, 7 * S),
        Vector3::new(0, S, 0),
        &scene,
        5,
    );
    assert_eq!(out, Vector3::new(2 * S, 2 * S, 2 * S));
}

#[test]
fn empty_scene_samples_black() {
    let scene = Scene { camera: Camera { focal_len: S, width: 2 * S }, objects: Vec::new() };
    let ray = Ray::new(Vector3::new(S, -S, 0), Vector3::new(0, S, 0));
    assert_eq!(scene.sample(ray, 0, 3), Vector3::new(0, 0, 0));
    assert_eq!(scene.sample(ray, 66, 7), Vector3::new(0, 0, 0));
}

#[test]
fn exhausted_bounces_sample_black() {
    let scene = Scene { camera: Camera { focal_len: S, width: 2 * S }, objects: Vec::new() };
    let ray = Ray::new(Vector3::new(0, 0, 0), Vector3::new(0, 0, S));
    assert_eq!(scene.sample(ray, 0, 0), Vector3::new(0, 0, 0));
}

#[test]
fn closest_intersection_orders_hits_and_keeps_first_seen() {
    let near = Object {
        object: Shape::Sphere,
        material: Material::Emissive { color: Vector3::new(S, S, S), intensity: 2 * S },
        transforms: vec![Transform::Translate(Vector3::new(0, 0, 3 * S))],
    };
    let far = Object {
        object: Shape::Sphere,
        material: Material::Emissive { color: Vector3::new(S, S, S), intensity: 3 * S },
        transforms: vec![Transform::Translate(Vector3::new(0, 0, 7 * S))],
    };
    let twin_of_near = Object {
        object: Shape::Sphere,
        material: Material::Emissive { color: Vector3::new(S, S, S), intensity: 4 * S },
        transforms: vec![Transform::Translate(Vector3::new(0, 0, 3 * S))],
    };
    let scene = Scene {
        camera: Camera { focal_len: S, width: 2 * S },
        objects: vec![far, near, twin_of_near],
    };
    let ray = Ray::new(Vector3::new(0, 0, 0), Vector3::new(0, 0, S));
    let (t, _intersection, obj) = scene.closest_intersection(ray, 0).expect("two spheres ahead");
    assert_eq!(t, 2 * S);
    // The first-seen of the two equally close spheres wins the tie.
    assert!(matches!(obj.material, Material::Emissive { intensity, .. } if intensity == 2 * S));
}

#[test]
fn closest_intersection_respects_tmin() {
    let sphere = Object {
        object: Shape::Sphere,
        material: Material::Emissive { color: Vector3::new(S, S, S), intensity: 2 * S },
        transforms: vec![Transform::Translate(Vector3::new(0, 0, 3 * S))],
    };
    let scene = Scene { camera: Camera { focal_len: S, width: 2 * S }, objects: vec![sphere] };
    let ray = Ray::new(Vector3::new(0, 0, 0), Vector3::new(0, 0, S));
    assert!(scene.closest_intersection(ray, 2 * S).is_none());
}

#[test]
fn render_single_emissive_sphere() {
    // A 2 by 2 render of a small emissive sphere straight ahead: only the
    // pixel whose primary ray meets the sphere is lit, and it saturates to
    // white after gamma and clamping.
    let sphere = Object {
        object: Shape::Sphere,
        material: Material::Emissive { color: Vector3::new(S, S, S), intensity: 2 * S },
        transforms: vec![
            Transform::Scale(Vector3::new(S / 2, S / 2, S / 2)),
            Transform::Translate(Vector3::new(0, 0, 5 * S)),
        ],
    };
    let scene = Scene { camera: Camera { focal_len: S, width: 2 * S }, objects: vec![sphere] };
    let img = scene.render(2, 2, 1);
    assert_eq!(img.width, 2);
    assert_eq!(img.height, 2);
    assert_eq!(img.data.len(), 4);
    assert_eq!(img.data[0], Vector3::new(0, 0, 0));
    assert_eq!(img.data[1], Vector3::new(0, 0, 0));
    assert_eq!(img.data[2], Vector3::new(0, 0, 0));
    assert_eq!(img.data[3], Vector3::new(S, S, S));
}

#[test]
fn image_quantizes_to_rgb8() {
    let img = raytracer::image::Image::new(
        vec![Vector3::new(S, S / 2, 0), Vector3::new(-S, 2 * S, S / 4)],
        2,
        1,
    );
    let bytes = img.to_rgb8();
    assert_eq!(bytes, vec![255, 127, 0, 0, 255, 63]);
}

#[test]
fn camera_center_pixel_looks_forward() {
    let camera = Camera { focal_len: S, width: 2 * S };
    let ray = camera.ray(1, 1, 2, 2);
    assert_eq!(ray.origin, Vector3::new(0, 0, 0));
    assert_eq!(ray.direction, Vector3::new(0, 0, S));
}

#[test]
fn gamma_fixes_endpoints_and_orders_values() {
    assert_eq!(srgb_gamma(0), 0);
    assert_eq!(srgb_gamma(S), S);
    // Spot checks of monotonicity across both branches and the boundary.
    let probes: [i64; 8] = [0, 1, 100, 204, 205, 3000, 30000, S];
    for pair in probes.windows(2) {
        assert!(srgb_gamma(pair[0]) <= srgb_gamma(pair[1]));
    }
    // The linear branch passes negative channels through.
    assert!(srgb_gamma(-S) < 0);
}

#[test]
fn gamma_boundary_values_are_exact() {
    // The top of the linear segment and the first point of the power
    // branch, pinned to their exact fixed-point values.
    assert_eq!(srgb_gamma(204), 2635);
    assert_eq!(srgb_gamma(205), 2647);
}

#[test]
fn specular_lighting_terminates_black_without_light() {
    let mat = Material::Specular { color: Vector3::new(S, S, S), roughness: S / 2 };
    let scene = Scene { camera: Camera { focal_len: S, width: 2 * S }, objects: Vec::new() };
    let out = mat.lighting(
        Vector3::new(0, 0, S),
        Vector3::new(0, 0, -S),
        Vector3::new(0, 0, S),
        &scene,
        3,
    );
    assert_eq!(out, Vector3::new(0, 0, 0));
}

#[test]
fn uniform_stays_in_the_unit_interval() {
    for _ in 0..1000 {
        let u = uniform();
        assert!((0..S).contains(&u));
    }
}

#[test]
fn normal_stays_in_the_folded_range() {
    for _ in 0..1000 {
        let n = normal();
        assert!((-6 * S..=6 * S).contains(&n));
    }
}

#[test]
fn hemisphere_samples_point_away_from_surface() {
    let n = Vector3::new(0, 0, S);
    for _ in 0..100 {
        let d = sample_hemisphere(n);
        assert!(d.dot(n) > 0 || d == n);
    }
}

#[test]
fn diffuse_lighting_terminates_black_without_light() {
    // With no light source anywhere the estimator ends on the bounce budget
    // and a diffuse surface reflects black.
    let mat = Material::Diffuse { color: Vector3::new(S, S / 2, S / 4) };
    let scene = Scene { camera: Camera { focal_len: S, width: 2 * S }, objects: Vec::new() };
    let out = mat.lighting(
        Vector3::new(0, 0, S),
        Vector3::new(0, 0, -S),
        Vector3::new(0, 0, S),
        &scene,
        3,
    );
    assert_eq!(out, Vector3::new(0, 0, 0));
}

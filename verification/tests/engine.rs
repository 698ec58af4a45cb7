//! Intersection, path tracing and progressive accumulation.

use lux::fixed::SCALE;
use lux::vec3::Vec3;
use lux::shape::{Shape, Sphere};
use lux::rtrf::{Rtrf, Constant};
use lux::rdf::{Rdf, Diffuse};
use lux::material::Material;
use lux::tdf::Tdf;
use lux::object::Object;
use lux::config::Config;
use lux::camera::{Camera, Projection};
use lux::renderer::Renderer;

fn test_config(width: usize, height: usize) -> Config {
    Config {
        width,
        height,
        channels: 3,
        ray_accuracy: 655,
        ray_max: 100 * SCALE,
        normal_epsilon: 655,
        path_length: 4,
        attenuation: vec![0, 0, 0],
    }
}

fn test_camera() -> Camera {
    Camera::Projection(Projection::new(
        Vec3::new(0, 0, 0),
        Vec3::new(0, 0, -SCALE),
        Vec3::new(0, SCALE, 0),
        60 * SCALE,
        37837,
        116508,
    ))
}

fn matte_object(center: Vec3, radius: i64, ratio: i64, emission: i64) -> Object {
    let rtrf = Rtrf::Constant(Constant::new(vec![ratio, ratio, ratio]).unwrap());
    let rdf = Rdf::Diffuse(Diffuse::new(vec![SCALE, SCALE, SCALE]).unwrap());
    let material = Material::new(
        rtrf,
        rdf,
        Tdf::Inert,
        vec![emission, emission, emission],
    )
    .unwrap();
    Object::new(Shape::Sphere(Sphere::new(center, radius)), material)
}

#[test]
fn t_intersect_hit_distance() {
    // A sphere of radius 3 centred 20 units down the ray: the hit comes
    // back at distance 17, within the accuracy threshold.
    let scene = vec![matte_object(Vec3::new(0, 0, -20 * SCALE), 3 * SCALE, 0, 0)];
    let r = Renderer::new(test_config(2, 2), test_camera(), scene);
    let hit = r.intersect(Vec3::new(0, 0, 0), Vec3::new(0, 0, -SCALE));
    let (distance, index) = hit.expect("the ray points straight at the sphere");
    assert_eq!(index, 0);
    assert!(
        (distance - 17 * SCALE).abs() <= 2 * 655,
        "distance {} expected about {}",
        distance,
        17 * SCALE
    );
}

#[test]
fn t_intersect_miss() {
    let scene = vec![matte_object(Vec3::new(0, 0, -20 * SCALE), 3 * SCALE, 0, 0)];
    let r = Renderer::new(test_config(2, 2), test_camera(), scene);
    // pointing away from every object in the scene
    let hit = r.intersect(Vec3::new(0, 0, 0), Vec3::new(0, 0, SCALE));
    assert!(hit.is_none());
    // an empty scene never reports a hit
    let empty = Renderer::new(test_config(2, 2), test_camera(), vec![]);
    assert!(empty.intersect(Vec3::new(0, 0, 0), Vec3::new(0, 0, -SCALE)).is_none());
}

#[test]
fn t_trace_absorbing_sphere_is_dark() {
    // Fully absorbing (ratio 0), non-emissive: a direct hit contributes
    // exactly zero radiance.
    let scene = vec![matte_object(Vec3::new(0, 0, -20 * SCALE), 3 * SCALE, 0, 0)];
    let r = Renderer::new(test_config(2, 2), test_camera(), scene);
    for channel in 0..3 {
        assert_eq!(r.trace(Vec3::new(0, 0, 0), Vec3::new(0, 0, -SCALE), channel), 0);
    }
}

#[test]
fn t_trace_emissive_sphere_returns_emission() {
    // Fully emissive (ratio 0, emission 1): a direct hit returns the
    // emission value exactly, the travel term being one with zero
    // attenuation.
    let scene = vec![matte_object(Vec3::new(0, 0, -20 * SCALE), 3 * SCALE, 0, SCALE)];
    let r = Renderer::new(test_config(2, 2), test_camera(), scene);
    for channel in 0..3 {
        assert_eq!(r.trace(Vec3::new(0, 0, 0), Vec3::new(0, 0, -SCALE), channel), SCALE);
    }
}

/// A scene whose every sample is the same deterministic value: the
/// camera sits at the centre of an emissive, never-reflecting sphere.
fn enclosing_scene() -> Vec<Object> {
    vec![matte_object(Vec3::new(0, 0, 0), 2 * SCALE, 0, SCALE)]
}

#[test]
fn t_render_counts_iterations() {
    let mut r = Renderer::new(test_config(2, 2), test_camera(), enclosing_scene());
    assert_eq!(r.iteration(), 0);
    r.render(2);
    assert_eq!(r.iteration(), 2);
    r.render(3);
    assert_eq!(r.iteration(), 5);
}

#[test]
fn t_render_additive() {
    // Two renders accumulate exactly what one render of the summed
    // iteration count accumulates, and the counters agree.
    let mut split = Renderer::new(test_config(2, 2), test_camera(), enclosing_scene());
    split.render(1);
    split.render(2);
    let mut whole = Renderer::new(test_config(2, 2), test_camera(), enclosing_scene());
    whole.render(3);
    assert_eq!(split.iteration(), whole.iteration());
    for i in 0..(2 * 2 * 3) {
        assert_eq!(split.sample(i), whole.sample(i));
        assert_eq!(split.sample(i), 3 * SCALE as i128);
    }
}

#[test]
fn t_render_never_resets() {
    let mut r = Renderer::new(test_config(2, 2), test_camera(), enclosing_scene());
    r.render(1);
    let before: Vec<i128> = (0..12).map(|i| r.sample(i)).collect();
    r.render(1);
    for i in 0..12 {
        assert!(r.sample(i) >= before[i]);
    }
}

#[test]
fn t_rgb_of_uniform_buffer_saturates() {
    let mut r = Renderer::new(test_config(2, 2), test_camera(), enclosing_scene());
    r.render(1);
    let px = r.rgb(SCALE);
    assert_eq!(px.len(), 4);
    for p in px {
        // every channel normalizes to one and quantizes to 255
        assert_eq!(p, 255 * 65536 + 255 * 256 + 255);
    }
}

#[test]
fn t_snapshot_scale_invariant() {
    // Scaling every accumulated sample uniformly (by accumulating the
    // same deterministic sample again) leaves the normalized outputs
    // unchanged.
    let mut r = Renderer::new(test_config(2, 2), test_camera(), enclosing_scene());
    r.render(1);
    let rgb_once = r.rgb(29127);
    let planes_once = r.planes();
    r.render(1);
    let rgb_twice = r.rgb(29127);
    let planes_twice = r.planes();
    assert_eq!(rgb_once, rgb_twice);
    assert_eq!(planes_once.0, planes_twice.0);
    assert_eq!(planes_once.1, planes_twice.1);
    assert_eq!(planes_once.2, planes_twice.2);
}

#[test]
fn t_planes_normalized() {
    let scene = vec![matte_object(Vec3::new(0, 0, -20 * SCALE), 3 * SCALE, 0, SCALE)];
    let mut r = Renderer::new(test_config(4, 4), test_camera(), scene);
    r.render(1);
    let (pr, pg, pb) = r.planes();
    assert_eq!(pr.len(), 16);
    assert_eq!(pg.len(), 16);
    assert_eq!(pb.len(), 16);
    let mut top = 0;
    for i in 0..16 {
        assert!(0 <= pr[i] && pr[i] <= SCALE);
        if pr[i] > top {
            top = pr[i];
        }
    }
    // the brightest sample normalizes to exactly one (unless nothing was hit)
    assert!(top == SCALE || top == 0);
}

#[test]
fn t_camera_ray_through_center() {
    let cam = Projection::new(
        Vec3::new(0, 3 * SCALE, 0),
        Vec3::new(0, 0, -SCALE),
        Vec3::new(0, SCALE, 0),
        60 * SCALE,
        37837,
        116508,
    );
    assert_eq!(cam.fov(), 60 * SCALE);
    let (origin, direction) = cam.ray(32768, 32768);
    assert_eq!((origin.x, origin.y, origin.z), (0, 3 * SCALE, 0));
    // the centre ray points along the view direction, up to rounding
    assert!(direction.x.abs() <= 16);
    assert!(direction.y.abs() <= 16);
    assert!((direction.z + SCALE).abs() <= 16);
    let v = cam.view();
    assert_eq!((v.x, v.y, v.z), (0, 0, -SCALE));
    let u = cam.up();
    assert_eq!((u.x, u.y, u.z), (0, SCALE, 0));
    let rt = cam.right();
    assert_eq!((rt.x, rt.y, rt.z), (SCALE, 0, 0));
}

#[test]
fn t_bounce_segment_decision_rule() {
    // One hit of a half-reflective red-ish sphere: the draw below the
    // ratio reflects with the cosine-weighted reflectance, the draw at
    // or above it absorbs with the bare reflectance; the emission and
    // the travel term are the object's either way.
    let rtrf = Rtrf::Constant(Constant::new(vec![32768, 32768, 32768]).unwrap());
    let rdf = Rdf::Diffuse(Diffuse::new(vec![SCALE, 6554, 6554]).unwrap());
    let material = Material::new(rtrf, rdf, Tdf::Inert, vec![SCALE, 0, 0]).unwrap();
    let object = Object::new(
        Shape::Sphere(Sphere::new(Vec3::new(0, 0, -20 * SCALE), 3 * SCALE)),
        material,
    );
    let r = Renderer::new(test_config(2, 2), test_camera(), vec![object]);
    let up = Vec3::new(0, SCALE, 0);
    let slanted = Vec3::new(0, 32768, 0);
    // absorbed: draw at the ratio; weight is the bare reflectance
    let absorbed = r.bounce_segment(0, 0, 17 * SCALE, 32768, up, up);
    assert_eq!(absorbed, (SCALE, SCALE, SCALE));
    // reflected: draw below the ratio; weight is reflectance times the
    // clamped cosine (here 0.5)
    let reflected = r.bounce_segment(0, 0, 17 * SCALE, 0, slanted, up);
    assert_eq!(reflected, (32768, SCALE, SCALE));
    // a backward hit distance attenuates nothing
    let backward = r.bounce_segment(1, 0, -SCALE, 32768, up, up);
    assert_eq!(backward, (6554, 0, SCALE));
}

#[test]
fn t_reflecting_path_stays_bounded() {
    // A fully reflective scene: whatever the random bounces, the sample
    // stays within the non-negative bounded band the tracer promises.
    let scene = vec![
        matte_object(Vec3::new(0, 0, -20 * SCALE), 3 * SCALE, SCALE, SCALE),
        matte_object(Vec3::new(0, -1000 * SCALE / 10, -20 * SCALE), 90 * SCALE, SCALE, 0),
    ];
    let r = Renderer::new(test_config(2, 2), test_camera(), scene);
    for _ in 0..50 {
        let light = r.trace(Vec3::new(0, 0, 0), Vec3::new(0, 0, -SCALE), 0);
        assert!(light >= 0);
    }
}

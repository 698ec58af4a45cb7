//! Fixed-point scalars, vectors, shapes and the material model.

use lux::fixed::{fx_mul, fx_div, fx_sqrt01, fx_pow, fx_clamp01, isqrt, SCALE, INV_TWO_PI};
use lux::vec3::Vec3;
use lux::shape::{Shape, Sphere};
use lux::rtrf::{Rtrf, Constant};
use lux::rdf::{Rdf, Diffuse};
use lux::material::Material;
use lux::tdf::Tdf;
use lux::error::ParamError;

#[test]
fn t_fx_mul_exact() {
    // 2.0 * 3.0 == 6.0
    assert_eq!(fx_mul(2 * SCALE, 3 * SCALE), 6 * SCALE);
    // 0.5 * 0.5 == 0.25
    assert_eq!(fx_mul(32768, 32768), 16384);
    // truncation toward zero
    assert_eq!(fx_mul(1, 1), 0);
    assert_eq!(fx_mul(-3 * SCALE, 2 * SCALE), -6 * SCALE);
}

#[test]
fn t_fx_div_exact() {
    assert_eq!(fx_div(6 * SCALE, 3 * SCALE), 2 * SCALE);
    assert_eq!(fx_div(SCALE, 2 * SCALE), 32768);
}

#[test]
fn t_isqrt_bounds() {
    assert_eq!(isqrt(0), 0);
    assert_eq!(isqrt(10), 3);
    assert_eq!(isqrt(4294967295), 65535);
}

#[test]
fn t_fx_sqrt01() {
    assert_eq!(fx_sqrt01(SCALE), SCALE);
    assert_eq!(fx_sqrt01(0), 0);
    // sqrt(0.25) == 0.5
    assert_eq!(fx_sqrt01(16384), 32768);
}

#[test]
fn t_fx_pow_identities() {
    assert_eq!(fx_pow(12345, 0), SCALE);
    assert_eq!(fx_pow(SCALE, 7 * SCALE), SCALE);
    assert_eq!(fx_pow(0, 1), 0);
    assert_eq!(fx_pow(12345, SCALE), 12345);
    // 0.25 ^ 0.5 == 0.5
    assert_eq!(fx_pow(16384, 32768), 32768);
}

#[test]
fn t_fx_clamp01() {
    assert_eq!(fx_clamp01(-5), 0);
    assert_eq!(fx_clamp01(SCALE + 5), SCALE);
    assert_eq!(fx_clamp01(123), 123);
}

#[test]
fn t_vec3_normalize() {
    // (3, 4, 0) normalizes to (0.6, 0.8, 0) up to truncation.
    let v = Vec3::new(3 * SCALE, 4 * SCALE, 0);
    let u = v.normalize();
    assert_eq!(u.x, 39321);
    assert_eq!(u.y, 52428);
    assert_eq!(u.z, 0);
}

#[test]
fn t_vec3_dot_cross() {
    let a = Vec3::new(SCALE, 0, 0);
    let b = Vec3::new(0, SCALE, 0);
    assert_eq!(a.dot(&b), 0);
    assert_eq!(a.dot(&a), SCALE);
    let c = a.cross(&b);
    assert_eq!((c.x, c.y, c.z), (0, 0, SCALE));
}

#[test]
fn t_sphere_sdf_center() {
    // sdf at the centre is exactly minus the radius.
    let s = Sphere::new(Vec3::new(SCALE, 2 * SCALE, -3 * SCALE), SCALE);
    assert_eq!(s.sdf(Vec3::new(SCALE, 2 * SCALE, -3 * SCALE)), -SCALE);
}

#[test]
fn t_sphere_sdf_surface_zero() {
    let s = Sphere::new(Vec3::new(0, 0, 0), SCALE);
    // on the boundary
    assert_eq!(s.sdf(Vec3::new(SCALE, 0, 0)), 0);
    // one unit outside
    assert_eq!(s.sdf(Vec3::new(2 * SCALE, 0, 0)), SCALE);
}

#[test]
fn t_sphere_sdf_lipschitz_along_ray() {
    // Stepping one unit along a ray changes the distance by at most one
    // unit (plus integer-rounding slack).
    let s = Sphere::new(Vec3::new(0, 0, -20 * SCALE), 3 * SCALE);
    let mut prev = s.sdf(Vec3::new(0, 0, 0));
    for k in 1..40i64 {
        let p = Vec3::new(0, 0, -k * SCALE);
        let cur = s.sdf(p);
        assert!((cur - prev).abs() <= SCALE + 2);
        prev = cur;
    }
}

#[test]
fn t_sphere_normal_radial() {
    // At a point straight out along an axis the estimated normal is the
    // exact axis direction, and exactly unit length.
    let s = Sphere::new(Vec3::new(0, 0, 0), SCALE);
    let n = s.normal(Vec3::new(98304, 0, 0), 655);
    assert_eq!((n.x, n.y, n.z), (SCALE, 0, 0));
    let ls = n.x * n.x + n.y * n.y + n.z * n.z;
    assert_eq!(ls, SCALE * SCALE);
}

#[test]
fn t_shape_dispatch() {
    let s = Shape::Sphere(Sphere::new(Vec3::new(0, 0, 0), 2 * SCALE));
    assert_eq!(s.sdf(Vec3::new(0, 0, 0)), -2 * SCALE);
}

#[test]
fn t_diffuse_sample_hemisphere() {
    // The sampled direction always lies on the hemisphere around the
    // normal and is unit length up to fixed-point rounding.
    let d = Diffuse::new(vec![SCALE, SCALE, SCALE]).unwrap();
    let normal = Vec3::new(0, SCALE, 0);
    let incoming = Vec3::new(0, -SCALE, 0);
    for _ in 0..200 {
        let r = d.random(incoming, normal);
        // dot with the axis normal is just the y component
        assert!(r.y >= 0);
        let ls = r.x * r.x + r.y * r.y + r.z * r.z;
        assert!(-393218 <= ls - SCALE * SCALE && ls - SCALE * SCALE <= 524304, "length squared {}", ls);
    }
}

#[test]
fn t_diffuse_pdf_constant() {
    let d = Diffuse::new(vec![SCALE]).unwrap();
    let a = Vec3::new(SCALE, 0, 0);
    let b = Vec3::new(0, SCALE, 0);
    assert_eq!(d.pdf(a, b), INV_TWO_PI);
    assert_eq!(d.pdf(b, a), INV_TWO_PI);
    let rdf = Rdf::Diffuse(Diffuse::new(vec![SCALE]).unwrap());
    assert_eq!(rdf.pdf(a, b, b), INV_TWO_PI);
}

#[test]
fn t_constant_new_range() {
    // 1.5 on channel zero must fail; 1.0 must succeed.
    let bad = Constant::new(vec![98304, 0, 0]);
    assert_eq!(bad.err().unwrap(), ParamError::Ratio { channel: 0 });
    let good = Constant::new(vec![SCALE, 0, 0]).unwrap();
    assert_eq!(good.ratio(0), SCALE);
    assert_eq!(good.ratio(1), 0);
    let neg = Constant::new(vec![0, -1]);
    assert_eq!(neg.err().unwrap(), ParamError::Ratio { channel: 1 });
}

#[test]
fn t_diffuse_new_range() {
    let bad = Diffuse::new(vec![0, 98304, 0]);
    assert_eq!(bad.err().unwrap(), ParamError::Reflection { channel: 1 });
    let good = Diffuse::new(vec![SCALE, 6553, 0]).unwrap();
    assert_eq!(good.reflection(1), 6553);
}

#[test]
fn t_material_new_rejects_negative_emission() {
    let rtrf = Rtrf::Constant(Constant::new(vec![SCALE, SCALE, SCALE]).unwrap());
    let rdf = Rdf::Diffuse(Diffuse::new(vec![SCALE, SCALE, SCALE]).unwrap());
    let m = Material::new(rtrf, rdf, Tdf::Inert, vec![0, -1, 0]);
    assert_eq!(m.err().unwrap(), ParamError::Emission { channel: 1 });
}

#[test]
fn t_material_new_round_trips() {
    let rtrf = Rtrf::Constant(Constant::new(vec![SCALE, SCALE, SCALE]).unwrap());
    let rdf = Rdf::Diffuse(Diffuse::new(vec![SCALE, SCALE, SCALE]).unwrap());
    let m = Material::new(rtrf, rdf, Tdf::Inert, vec![SCALE, SCALE, SCALE]).unwrap();
    assert_eq!(m.emission, vec![SCALE, SCALE, SCALE]);
    assert_eq!(m.rtrf.ratio(2), SCALE);
    assert_eq!(m.rdf.reflection(0), SCALE);
}

//! Implicit shapes: signed distance and estimated surface normal.

use vstd::prelude::*;
use crate::fixed::{SCALE, COORD_LIMIT, POINT_LIMIT, VEC_LIMIT, sqrt_s, is_sqrt, lemma_sqrt_s_is, fx_div_s, dtz};
use crate::vec3::{Vec3, in_range};

verus! {

#[derive(Clone, Copy, Debug)]
pub struct Sphere {
    pub position: Vec3,
    pub radius: i64,
}

/// A sphere the tracer can hold: centre and radius within the coordinate
/// bounds of the fixed-point world.
pub open spec fn sphere_wf(s: Sphere) -> bool {
    &&& in_range(s.position, COORD_LIMIT as int)
    &&& 0 <= s.radius <= COORD_LIMIT
}

/// The signed distance from `p` to the sphere's boundary: the length of
/// `p - centre` minus the radius. Negative inside, zero on the boundary,
/// positive outside.
pub open spec fn sdf_sphere_s(s: Sphere, p: Vec3) -> int {
    let dx = p.x - s.position.x;
    let dy = p.y - s.position.y;
    let dz = p.z - s.position.z;
    sqrt_s(dx * dx + dy * dy + dz * dz) - s.radius
}

/// The central finite difference of the signed distance at `p` along the
/// three axes, with step `e`.
pub open spec fn grad_sphere_s(s: Sphere, p: Vec3, e: i64) -> (int, int, int) {
    (
        sdf_sphere_s(s, Vec3 { x: (p.x + e) as i64, y: p.y, z: p.z })
            - sdf_sphere_s(s, Vec3 { x: (p.x - e) as i64, y: p.y, z: p.z }),
        sdf_sphere_s(s, Vec3 { x: p.x, y: (p.y + e) as i64, z: p.z })
            - sdf_sphere_s(s, Vec3 { x: p.x, y: (p.y - e) as i64, z: p.z }),
        sdf_sphere_s(s, Vec3 { x: p.x, y: p.y, z: (p.z + e) as i64 })
            - sdf_sphere_s(s, Vec3 { x: p.x, y: p.y, z: (p.z - e) as i64 }),
    )
}

/// The gradient estimate is usable: within vector range and not rounded
/// away to zero.
pub open spec fn grad_usable(g: (int, int, int)) -> bool {
    &&& -(VEC_LIMIT as int) <= g.0 <= VEC_LIMIT as int
    &&& -(VEC_LIMIT as int) <= g.1 <= VEC_LIMIT as int
    &&& -(VEC_LIMIT as int) <= g.2 <= VEC_LIMIT as int
    &&& g.0 * g.0 + g.1 * g.1 + g.2 * g.2 >= 1
}

/// The estimated normal's exact value: the normalized finite-difference
/// gradient, or the zero vector where rounding degenerates it.
pub open spec fn normal_sphere_s(s: Sphere, p: Vec3, e: i64) -> (int, int, int) {
    let g = grad_sphere_s(s, p, e);
    if grad_usable(g) {
        (
            fx_div_s(g.0, sqrt_s(g.0 * g.0 + g.1 * g.1 + g.2 * g.2)),
            fx_div_s(g.1, sqrt_s(g.0 * g.0 + g.1 * g.1 + g.2 * g.2)),
            fx_div_s(g.2, sqrt_s(g.0 * g.0 + g.1 * g.1 + g.2 * g.2)),
        )
    } else {
        (0, 0, 0)
    }
}

/// The estimated normal of whichever variant the shape holds.
pub open spec fn normal_shape_s(s: Shape, p: Vec3, e: i64) -> (int, int, int) {
    match s {
        Shape::Sphere(sphere) => normal_sphere_s(sphere, p, e),
    }
}

impl Sphere {
    pub fn new(position: Vec3, radius: i64) -> (r: Sphere)
        ensures
            r.position == position,
            r.radius == radius,
    {
        Sphere { position, radius }
    }

    /// Signed Euclidean distance from `position` to the boundary.
    pub fn sdf(&self, position: Vec3) -> (r: i64)
        requires
            sphere_wf(*self),
            in_range(position, POINT_LIMIT as int),
        ensures
            r == sdf_sphere_s(*self, position),
            -self.radius <= r <= 3037000499,
    {
        let d: Vec3 = position.minus(&self.position);
        let len: i64 = d.length();
        len - self.radius
    }

    /// Unit outward normal, estimated as the normalized central finite
    /// difference of the signed distance. When rounding collapses the
    /// gradient below the scalar step, the zero vector is returned.
    pub fn normal(&self, position: Vec3, epsilon: i64) -> (r: Vec3)
        requires
            sphere_wf(*self),
            in_range(position, POINT_LIMIT as int - SCALE as int),
            1 <= epsilon <= SCALE,
        ensures
            in_range(r, SCALE as int),
            (r.x as int, r.y as int, r.z as int) == normal_sphere_s(*self, position, epsilon),
    {
        let gx: i64 = self.sdf(Vec3 { x: position.x + epsilon, y: position.y, z: position.z })
            - self.sdf(Vec3 { x: position.x - epsilon, y: position.y, z: position.z });
        let gy: i64 = self.sdf(Vec3 { x: position.x, y: position.y + epsilon, z: position.z })
            - self.sdf(Vec3 { x: position.x, y: position.y - epsilon, z: position.z });
        let gz: i64 = self.sdf(Vec3 { x: position.x, y: position.y, z: position.z + epsilon })
            - self.sdf(Vec3 { x: position.x, y: position.y, z: position.z - epsilon });
        let g = Vec3 { x: gx, y: gy, z: gz };
        if -VEC_LIMIT <= gx && gx <= VEC_LIMIT && -VEC_LIMIT <= gy && gy <= VEC_LIMIT
            && -VEC_LIMIT <= gz && gz <= VEC_LIMIT {
            let ls: i64 = g.length_squared();
            if ls >= 1 {
                g.normalize()
            } else {
                Vec3 { x: 0, y: 0, z: 0 }
            }
        } else {
            Vec3 { x: 0, y: 0, z: 0 }
        }
    }
}

/// At a point straight out from the centre along an axis, the
/// finite-difference gradient of the signed distance is exactly the
/// outward axis direction scaled by twice the step, and normalizing it
/// gives exactly the unit axis vector: the estimated normal is parallel
/// to `point - centre` there.
pub proof fn lemma_normal_axis_aligned(s: Sphere, t: i64, e: i64)
    requires
        sphere_wf(s),
        1 <= e <= SCALE,
        (e as int) <= t as int,
        t <= COORD_LIMIT,
    ensures
        ({
            let p = Vec3 { x: (s.position.x + t) as i64, y: s.position.y, z: s.position.z };
            let g = grad_sphere_s(s, p, e);
            &&& g == (2 * (e as int), 0int, 0int)
            &&& grad_usable(g)
            &&& fx_div_s(g.0, sqrt_s(g.0 * g.0 + g.1 * g.1 + g.2 * g.2)) == SCALE as int
            &&& fx_div_s(g.1, sqrt_s(g.0 * g.0 + g.1 * g.1 + g.2 * g.2)) == 0
            &&& fx_div_s(g.2, sqrt_s(g.0 * g.0 + g.1 * g.1 + g.2 * g.2)) == 0
        }),
{
    let p = Vec3 { x: (s.position.x + t) as i64, y: s.position.y, z: s.position.z };
    let g = grad_sphere_s(s, p, e);
    let tp = t + e;
    let tm = t - e;
    assert(is_sqrt((tp as int) * (tp as int), tp as int)) by (nonlinear_arith)
        requires
            0 <= tp as int,
    ;
    lemma_sqrt_s_is((tp as int) * (tp as int), tp as int);
    assert(is_sqrt((tm as int) * (tm as int), tm as int)) by (nonlinear_arith)
        requires
            0 <= tm as int,
    ;
    lemma_sqrt_s_is((tm as int) * (tm as int), tm as int);
    assert(p.x == s.position.x + t);
    let gxp = Vec3 { x: (p.x + e) as i64, y: p.y, z: p.z };
    let gxm = Vec3 { x: (p.x - e) as i64, y: p.y, z: p.z };
    assert((gxp.x as int) - s.position.x == tp as int);
    assert((gxm.x as int) - s.position.x == tm as int);
    assert(sdf_sphere_s(s, gxp) == tp - s.radius);
    assert(sdf_sphere_s(s, gxm) == tm - s.radius);
    assert(g.0 == 2 * (e as int));
    let gyp = Vec3 { x: p.x, y: (p.y + e) as i64, z: p.z };
    let gym = Vec3 { x: p.x, y: (p.y - e) as i64, z: p.z };
    assert((gyp.y as int) - s.position.y == e as int);
    assert((gym.y as int) - s.position.y == -(e as int));
    assert((t as int) * (t as int) + (e as int) * (e as int) == (t as int) * (t as int) + (-(
    e as int)) * (-(e as int))) by (nonlinear_arith);
    assert(sdf_sphere_s(s, gyp) == sdf_sphere_s(s, gym));
    assert(g.1 == 0);
    let gzp = Vec3 { x: p.x, y: p.y, z: (p.z + e) as i64 };
    let gzm = Vec3 { x: p.x, y: p.y, z: (p.z - e) as i64 };
    assert((t as int) * (t as int) + 0 * 0 + (e as int) * (e as int) == (t as int) * (t as int) + 0
        * 0 + (-(e as int)) * (-(e as int))) by (nonlinear_arith);
    assert(sdf_sphere_s(s, gzp) == sdf_sphere_s(s, gzm));
    assert(g.2 == 0);
    assert(is_sqrt((2 * (e as int)) * (2 * (e as int)), 2 * (e as int))) by (nonlinear_arith)
        requires
            1 <= e,
    ;
    lemma_sqrt_s_is((2 * (e as int)) * (2 * (e as int)), 2 * (e as int));
    assert(g.0 * g.0 + g.1 * g.1 + g.2 * g.2 == (2 * (e as int)) * (2 * (e as int)));
    assert(dtz((2 * (e as int)) * 65536, 2 * (e as int)) == 65536) by (nonlinear_arith)
        requires
            1 <= e,
    ;
    assert(g.0 * g.0 + g.1 * g.1 + g.2 * g.2 >= 1) by (nonlinear_arith)
        requires
            g.0 == 2 * (e as int),
            g.1 == 0,
            g.2 == 0,
            1 <= e,
    ;
}

/// At its centre, a sphere's signed distance is exactly minus its radius.
pub proof fn lemma_sphere_sdf_center(s: Sphere)
    requires
        sphere_wf(s),
    ensures
        sdf_sphere_s(s, s.position) == -s.radius,
{
    assert(is_sqrt(0int, 0int)) by (nonlinear_arith);
    lemma_sqrt_s_is(0int, 0int);
}

#[derive(Clone, Copy, Debug)]
pub enum Shape {
    Sphere(Sphere),
}

pub open spec fn shape_wf(s: Shape) -> bool {
    match s {
        Shape::Sphere(sphere) => sphere_wf(sphere),
    }
}

/// The signed distance of whichever variant the shape holds.
pub open spec fn sdf_shape_s(s: Shape, p: Vec3) -> int {
    match s {
        Shape::Sphere(sphere) => sdf_sphere_s(sphere, p),
    }
}

impl Shape {
    pub fn sdf(&self, position: Vec3) -> (r: i64)
        requires
            shape_wf(*self),
            in_range(position, POINT_LIMIT as int),
        ensures
            r == sdf_shape_s(*self, position),
            -(COORD_LIMIT as int) <= r <= 3037000499,
    {
        match self {
            Shape::Sphere(sphere) => sphere.sdf(position),
        }
    }

    pub fn normal(&self, position: Vec3, epsilon: i64) -> (r: Vec3)
        requires
            shape_wf(*self),
            in_range(position, POINT_LIMIT as int - SCALE as int),
            1 <= epsilon <= SCALE,
        ensures
            in_range(r, SCALE as int),
            (r.x as int, r.y as int, r.z as int) == normal_shape_s(*self, position, epsilon),
    {
        match self {
            Shape::Sphere(sphere) => sphere.normal(position, epsilon),
        }
    }
}

} // verus!

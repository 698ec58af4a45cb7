//! Ray generation: a perspective projection camera.
//!
//! The viewing basis is re-orthogonalized at construction; a ray through
//! normalized image-plane coordinates is the linear map over that basis,
//! normalized to unit length. The trigonometric half-width of the field
//! of view has no exact fixed-point form, so the caller supplies it as a
//! scalar alongside the angle itself.

use vstd::prelude::*;
use crate::fixed::{SCALE, COORD_LIMIT, fx_mul_s, fx_div_s, dtz, sqrt_s, fx_div, fx_half, lemma_fx_mul_abs};
use crate::vec3::{Vec3, in_range, lsq_v, len_v, unit_band};

verus! {

pub enum Camera {
    Projection(Projection),
}

pub struct Projection {
    pub position: Vec3,
    pub view: Vec3,
    pub up: Vec3,
    pub right: Vec3,
    pub fov: i64,
    pub top_left: Vec3,
    pub down_vec: Vec3,
    pub right_vec: Vec3,
}

/// The unit vector of `v`, componentwise.
pub open spec fn unit_s(v: Vec3) -> (int, int, int) {
    (
        fx_div_s(v.x as int, len_v(v)),
        fx_div_s(v.y as int, len_v(v)),
        fx_div_s(v.z as int, len_v(v)),
    )
}

/// Cross product of component triples, at the scalar scale.
pub open spec fn cross_ts(a: (int, int, int), b: (int, int, int)) -> (int, int, int) {
    (
        fx_mul_s(a.1, b.2) - fx_mul_s(a.2, b.1),
        fx_mul_s(a.2, b.0) - fx_mul_s(a.0, b.2),
        fx_mul_s(a.0, b.1) - fx_mul_s(a.1, b.0),
    )
}

pub open spec fn triple_of(v: Vec3) -> (int, int, int) {
    (v.x as int, v.y as int, v.z as int)
}

pub open spec fn tsq(t: (int, int, int)) -> int {
    t.0 * t.0 + t.1 * t.1 + t.2 * t.2
}

/// The image-plane height for a given half-width and aspect ratio:
/// `2 * tan_half_fov / ratio`.
pub open spec fn plane_height_s(tan_half_fov: int, ratio: int) -> int {
    fx_div_s(2 * tan_half_fov, ratio)
}

/// Field bounds that ray generation relies on.
pub open spec fn projection_wf(p: Projection) -> bool {
    &&& in_range(p.position, COORD_LIMIT as int)
    &&& in_range(p.view, SCALE as int)
    &&& in_range(p.right, SCALE as int)
    &&& in_range(p.up, 2 * SCALE as int)
    &&& in_range(p.top_left, 0x8000000)
    &&& in_range(p.right_vec, 0x8000000)
    &&& in_range(p.down_vec, 0x8000000)
}

/// The unnormalized direction of the ray through plane coordinates
/// `(x, y)`: `top_left + right_vec * x + down_vec * y`, componentwise.
pub open spec fn ray_dir_s(p: Projection, x: int, y: int) -> (int, int, int) {
    (
        p.top_left.x + fx_mul_s(p.right_vec.x as int, x) + fx_mul_s(p.down_vec.x as int, y),
        p.top_left.y + fx_mul_s(p.right_vec.y as int, x) + fx_mul_s(p.down_vec.y as int, y),
        p.top_left.z + fx_mul_s(p.right_vec.z as int, x) + fx_mul_s(p.down_vec.z as int, y),
    )
}

impl Projection {
    /// Build the camera basis: `view` normalized, `right` the normalized
    /// cross product of view and the supplied up direction, `up` re-made
    /// orthogonal as `right x view`; the image plane spans `2 *
    /// tan_half_fov` horizontally at unit distance, divided by `ratio`
    /// vertically.
    pub fn new(position: Vec3, view: Vec3, up: Vec3, fov: i64, tan_half_fov: i64, ratio: i64) -> (r:
        Projection)
        requires
            in_range(position, COORD_LIMIT as int),
            in_range(view, COORD_LIMIT as int),
            in_range(up, COORD_LIMIT as int),
            lsq_v(view) >= 268435456,
            tsq(cross_ts(unit_s(view), triple_of(up))) >= 268435456,
            0 <= tan_half_fov <= 1048576,
            4096 <= ratio,
        ensures
            projection_wf(r),
            r.position == position,
            r.fov == fov,
            unit_band(lsq_v(r.view)),
            unit_band(lsq_v(r.right)),
            triple_of(r.view) == unit_s(view),
            ({
                let c = cross_ts(unit_s(view), triple_of(up));
                let cv = Vec3 { x: c.0 as i64, y: c.1 as i64, z: c.2 as i64 };
                triple_of(r.right) == unit_s(cv)
            }),
            triple_of(r.up) == cross_ts(triple_of(r.right), triple_of(r.view)),
            ({
                let h = plane_height_s(tan_half_fov as int, ratio as int);
                &&& r.right_vec.x == fx_mul_s(r.right.x as int, 2 * tan_half_fov)
                &&& r.right_vec.y == fx_mul_s(r.right.y as int, 2 * tan_half_fov)
                &&& r.right_vec.z == fx_mul_s(r.right.z as int, 2 * tan_half_fov)
                &&& r.down_vec.x == fx_mul_s(-r.up.x as int, h)
                &&& r.down_vec.y == fx_mul_s(-r.up.y as int, h)
                &&& r.down_vec.z == fx_mul_s(-r.up.z as int, h)
                &&& r.top_left.x == r.view.x - fx_mul_s(r.right.x as int, tan_half_fov as int)
                    + fx_mul_s(r.up.x as int, dtz(h, 2))
                &&& r.top_left.y == r.view.y - fx_mul_s(r.right.y as int, tan_half_fov as int)
                    + fx_mul_s(r.up.y as int, dtz(h, 2))
                &&& r.top_left.z == r.view.z - fx_mul_s(r.right.z as int, tan_half_fov as int)
                    + fx_mul_s(r.up.z as int, dtz(h, 2))
            }),
    {
        let view_n: Vec3 = view.normalize();
        proof {
            lemma_fx_mul_abs(view_n.y as int, up.z as int, SCALE as int, COORD_LIMIT as int);
            lemma_fx_mul_abs(view_n.z as int, up.y as int, SCALE as int, COORD_LIMIT as int);
            lemma_fx_mul_abs(view_n.z as int, up.x as int, SCALE as int, COORD_LIMIT as int);
            lemma_fx_mul_abs(view_n.x as int, up.z as int, SCALE as int, COORD_LIMIT as int);
            lemma_fx_mul_abs(view_n.x as int, up.y as int, SCALE as int, COORD_LIMIT as int);
            lemma_fx_mul_abs(view_n.y as int, up.x as int, SCALE as int, COORD_LIMIT as int);
        }
        let cross_vu: Vec3 = view_n.cross(&up);
        let right: Vec3 = cross_vu.normalize();
        proof {
            lemma_fx_mul_abs(right.y as int, view_n.z as int, SCALE as int, SCALE as int);
            lemma_fx_mul_abs(right.z as int, view_n.y as int, SCALE as int, SCALE as int);
            lemma_fx_mul_abs(right.z as int, view_n.x as int, SCALE as int, SCALE as int);
            lemma_fx_mul_abs(right.x as int, view_n.z as int, SCALE as int, SCALE as int);
            lemma_fx_mul_abs(right.x as int, view_n.y as int, SCALE as int, SCALE as int);
            lemma_fx_mul_abs(right.y as int, view_n.x as int, SCALE as int, SCALE as int);
        }
        let up_o: Vec3 = right.cross(&view_n);
        let width: i64 = 2 * tan_half_fov;
        let height: i64 = fx_div(width, ratio);
        proof {
            assert(0 <= dtz(width * 65536, ratio as int) <= 0x2000000) by (nonlinear_arith)
                requires
                    0 <= width <= 0x200000,
                    4096 <= ratio,
            ;
        }
        let half_height: i64 = fx_half(height);
        proof {
            lemma_fx_mul_abs(right.x as int, tan_half_fov as int, SCALE as int, 0x100000);
            lemma_fx_mul_abs(right.y as int, tan_half_fov as int, SCALE as int, 0x100000);
            lemma_fx_mul_abs(right.z as int, tan_half_fov as int, SCALE as int, 0x100000);
            lemma_fx_mul_abs(up_o.x as int, half_height as int, 2 * SCALE as int, 0x1000000);
            lemma_fx_mul_abs(up_o.y as int, half_height as int, 2 * SCALE as int, 0x1000000);
            lemma_fx_mul_abs(up_o.z as int, half_height as int, 2 * SCALE as int, 0x1000000);
        }
        let top_left: Vec3 = view_n.minus(&right.times(tan_half_fov)).plus(&up_o.times(half_height));
        proof {
            lemma_fx_mul_abs(right.x as int, width as int, SCALE as int, 0x200000);
            lemma_fx_mul_abs(right.y as int, width as int, SCALE as int, 0x200000);
            lemma_fx_mul_abs(right.z as int, width as int, SCALE as int, 0x200000);
        }
        let right_vec: Vec3 = right.times(width);
        proof {
            lemma_fx_mul_abs(-up_o.x as int, height as int, 2 * SCALE as int, 0x2000000);
            lemma_fx_mul_abs(-up_o.y as int, height as int, 2 * SCALE as int, 0x2000000);
            lemma_fx_mul_abs(-up_o.z as int, height as int, 2 * SCALE as int, 0x2000000);
        }
        let down_vec: Vec3 = up_o.neg().times(height);
        Projection { position, view: view_n, up: up_o, right, fov, top_left, down_vec, right_vec }
    }

    pub fn position(&self) -> (r: Vec3)
        ensures
            r == self.position,
    {
        self.position
    }

    pub fn view(&self) -> (r: Vec3)
        ensures
            r == self.view,
    {
        self.view
    }

    pub fn up(&self) -> (r: Vec3)
        ensures
            r == self.up,
    {
        self.up
    }

    pub fn right(&self) -> (r: Vec3)
        ensures
            r == self.right,
    {
        self.right
    }

    pub fn fov(&self) -> (r: i64)
        ensures
            r == self.fov,
    {
        self.fov
    }

    /// The ray through normalized plane coordinates `(x, y)`: origin at
    /// the camera position, direction the normalized linear map of the
    /// plane basis. If rounding collapses that direction to zero, the
    /// view direction stands in.
    pub fn ray(&self, x: i64, y: i64) -> (r: (Vec3, Vec3))
        requires
            projection_wf(*self),
            -SCALE <= x <= 2 * SCALE,
            -SCALE <= y <= 2 * SCALE,
        ensures
            r.0 == self.position,
            in_range(r.1, SCALE as int),
            ({
                let d = ray_dir_s(*self, x as int, y as int);
                if tsq(d) >= 1 {
                    &&& r.1.x == fx_div_s(d.0, sqrt_s(tsq(d)))
                    &&& r.1.y == fx_div_s(d.1, sqrt_s(tsq(d)))
                    &&& r.1.z == fx_div_s(d.2, sqrt_s(tsq(d)))
                } else {
                    r.1 == self.view
                }
            }),
            tsq(ray_dir_s(*self, x as int, y as int)) >= 268435456 ==> unit_band(lsq_v(r.1)),
    {
        proof {
            lemma_fx_mul_abs(self.right_vec.x as int, x as int, 0x8000000, 2 * SCALE as int);
            lemma_fx_mul_abs(self.right_vec.y as int, x as int, 0x8000000, 2 * SCALE as int);
            lemma_fx_mul_abs(self.right_vec.z as int, x as int, 0x8000000, 2 * SCALE as int);
            lemma_fx_mul_abs(self.down_vec.x as int, y as int, 0x8000000, 2 * SCALE as int);
            lemma_fx_mul_abs(self.down_vec.y as int, y as int, 0x8000000, 2 * SCALE as int);
            lemma_fx_mul_abs(self.down_vec.z as int, y as int, 0x8000000, 2 * SCALE as int);
        }
        let direction: Vec3 = self.top_left.plus(&self.right_vec.times(x)).plus(
            &self.down_vec.times(y),
        );
        let ls: i64 = direction.length_squared();
        if ls >= 1 {
            (self.position, direction.normalize())
        } else {
            (self.position, self.view)
        }
    }
}

/// The position the camera shoots from.
pub open spec fn camera_position(c: Camera) -> Vec3 {
    match c {
        Camera::Projection(p) => p.position,
    }
}

pub open spec fn camera_wf(c: Camera) -> bool {
    match c {
        Camera::Projection(p) => projection_wf(p),
    }
}

impl Camera {
    pub fn ray(&self, x: i64, y: i64) -> (r: (Vec3, Vec3))
        requires
            camera_wf(*self),
            -SCALE <= x <= 2 * SCALE,
            -SCALE <= y <= 2 * SCALE,
        ensures
            r.0 == camera_position(*self),
            in_range(r.1, SCALE as int),
            (match *self {
                Camera::Projection(p) => {
                    let d = ray_dir_s(p, x as int, y as int);
                    &&& (if tsq(d) >= 1 {
                        &&& r.1.x == fx_div_s(d.0, sqrt_s(tsq(d)))
                        &&& r.1.y == fx_div_s(d.1, sqrt_s(tsq(d)))
                        &&& r.1.z == fx_div_s(d.2, sqrt_s(tsq(d)))
                    } else {
                        r.1 == p.view
                    })
                    &&& (tsq(d) >= 268435456 ==> unit_band(lsq_v(r.1)))
                },
            }),
    {
        match self {
            Camera::Projection(projection) => projection.ray(x, y),
        }
    }
}

} // verus!

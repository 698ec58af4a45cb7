//! Reflection distribution functions: sampling an outgoing direction at a
//! hit, its density, and the per-channel reflectance.

use vstd::prelude::*;
use crate::fixed::{SCALE, INV_TWO_PI, vals_in_unit, dtz};
use crate::vec3::{Vec3, in_range, lsq_v, dot_v, unit_band};
use crate::error::ParamError;
use crate::rng::draw_symmetric;

verus! {

/// A Lambertian reflector: cosine-weighted hemisphere sampling with a
/// constant per-channel reflectance.
pub struct Diffuse {
    pub reflection: Vec<i64>,
}

impl Diffuse {
    /// Validates every channel into `[0, 1]`; the first channel out of
    /// range is reported and nothing is constructed.
    pub fn new(reflection: Vec<i64>) -> (r: Result<Diffuse, ParamError>)
        ensures
            r is Ok <==> vals_in_unit(reflection@),
            (match r {
                Result::Ok(d) => d.reflection@ == reflection@,
                Result::Err(e) => (match e {
                    ParamError::Reflection { channel } => {
                        &&& (channel as int) < reflection@.len()
                        &&& !(0 <= reflection@[channel as int] <= SCALE)
                        &&& forall|j: int| 0 <= j < channel ==> 0 <= #[trigger] reflection@[j] <= SCALE
                    },
                    _ => false,
                }),
            }),
    {
        let mut i: usize = 0;
        while i < reflection.len()
            invariant
                i <= reflection@.len(),
                forall|j: int| 0 <= j < i ==> 0 <= #[trigger] reflection@[j] <= SCALE,
            decreases reflection@.len() - i,
        {
            if reflection[i] < 0 || reflection[i] > SCALE {
                return Result::Err(ParamError::Reflection { channel: i });
            }
            i = i + 1;
        }
        Result::Ok(Diffuse { reflection })
    }

    /// Sample an outgoing direction: a uniformly random point of the unit
    /// ball is pushed to the sphere and flipped onto the hemisphere around
    /// `normal`. The result is a unit-length direction (up to fixed-point
    /// rounding) whose dot product with `normal` is never negative.
    ///
    /// Degenerate draws - outside the ball, or too close to its centre
    /// for the scalar grid to resolve their direction - are retried; if
    /// every retry in the bounded budget degenerates, the normal itself
    /// is returned, which also lies on the closed hemisphere.
    pub fn random(&self, in_vector: Vec3, normal: Vec3) -> (r: Vec3)
        requires
            in_range(normal, SCALE as int),
        ensures
            in_range(r, SCALE as int),
            dot_v(r, normal) >= 0,
            unit_band(lsq_v(r)) || r == normal,
            unit_band(lsq_v(normal)) ==> unit_band(lsq_v(r)),
    {
        let mut attempts: usize = 0;
        while attempts < 4096
            invariant
                in_range(normal, SCALE as int),
            decreases 4096 - attempts,
        {
            let x: i64 = draw_symmetric();
            let y: i64 = draw_symmetric();
            let z: i64 = draw_symmetric();
            let v = Vec3 { x, y, z };
            let r2: i64 = v.length_squared();
            if r2 >= 268435456 && r2 <= SCALE * SCALE {
                let u = v.normalize();
                let d: i64 = u.dot(&normal);
                if d > 0 {
                    return u;
                } else {
                    let w = u.neg();
                    proof {
                        lemma_dot_neg(u, w, normal);
                        assert(lsq_v(w) == lsq_v(u)) by (nonlinear_arith)
                            requires
                                w.x == -u.x && w.y == -u.y && w.z == -u.z,
                                lsq_v(w) == (w.x as int) * (w.x as int) + (w.y as int) * (w.y as int)
                                    + (w.z as int) * (w.z as int),
                                lsq_v(u) == (u.x as int) * (u.x as int) + (u.y as int) * (u.y as int)
                                    + (u.z as int) * (u.z as int),
                        ;
                    }
                    return w;
                }
            }
            attempts = attempts + 1;
        }
        proof {
            assert(dot_v(normal, normal) >= 0) by (nonlinear_arith)
                requires
                    dot_v(normal, normal) == dtz(
                        (normal.x as int) * (normal.x as int) + (normal.y as int) * (normal.y as int)
                            + (normal.z as int) * (normal.z as int),
                        SCALE as int,
                    ),
            ;
        }
        normal
    }

    /// The cosine-hemisphere density under this library's convention:
    /// the constant `1/(2*pi)`, whatever the directions.
    pub fn pdf(&self, in_vector: Vec3, out_vector: Vec3) -> (r: i64)
        ensures
            r == INV_TWO_PI,
    {
        INV_TWO_PI
    }

    pub fn reflection(&self, channel: usize) -> (r: i64)
        requires
            (channel as int) < self.reflection@.len(),
        ensures
            r == self.reflection@[channel as int],
    {
        self.reflection[channel]
    }
}

/// Negating one side of a dot product negates the product.
proof fn lemma_dot_neg(u: Vec3, w: Vec3, n: Vec3)
    requires
        w.x == -u.x,
        w.y == -u.y,
        w.z == -u.z,
    ensures
        dot_v(w, n) == -dot_v(u, n),
{
    assert((w.x as int) * (n.x as int) + (w.y as int) * (n.y as int) + (w.z as int) * (n.z as int)
        == -((u.x as int) * (n.x as int) + (u.y as int) * (n.y as int) + (u.z as int) * (n.z as int)))
        by (nonlinear_arith)
        requires
            w.x == -u.x,
            w.y == -u.y,
            w.z == -u.z,
    ;
}

/// The reflection distribution of an object. `Inert` is the placeholder
/// variant: no operation may be invoked on it, which the contracts state
/// as a precondition.
pub enum Rdf {
    Inert,
    Diffuse(Diffuse),
}

/// How many channels the reflectance carries.
pub open spec fn rdf_channels(r: Rdf) -> nat {
    match r {
        Rdf::Inert => 0,
        Rdf::Diffuse(d) => d.reflection@.len(),
    }
}

/// The reflectance value for one channel.
pub open spec fn rdf_reflection_s(r: Rdf, channel: int) -> int {
    match r {
        Rdf::Inert => 0,
        Rdf::Diffuse(d) => d.reflection@[channel] as int,
    }
}

/// The distribution is implemented and all channels lie in `[0, 1]`.
pub open spec fn rdf_wf(r: Rdf) -> bool {
    match r {
        Rdf::Inert => false,
        Rdf::Diffuse(d) => vals_in_unit(d.reflection@),
    }
}

impl Rdf {
    pub fn random(&self, in_vector: Vec3, normal: Vec3) -> (r: Vec3)
        requires
            self is Diffuse,
            in_range(normal, SCALE as int),
        ensures
            in_range(r, SCALE as int),
            dot_v(r, normal) >= 0,
            unit_band(lsq_v(r)) || r == normal,
            unit_band(lsq_v(normal)) ==> unit_band(lsq_v(r)),
    {
        match self {
            Rdf::Inert => Vec3 { x: 0, y: 0, z: 0 },
            Rdf::Diffuse(diffuse) => diffuse.random(in_vector, normal),
        }
    }

    pub fn pdf(&self, in_vector: Vec3, out_vector: Vec3, normal: Vec3) -> (r: i64)
        requires
            self is Diffuse,
        ensures
            r == INV_TWO_PI,
    {
        match self {
            Rdf::Inert => 0,
            Rdf::Diffuse(diffuse) => diffuse.pdf(in_vector, out_vector),
        }
    }

    pub fn reflection(&self, channel: usize) -> (r: i64)
        requires
            self is Diffuse,
            (channel as int) < rdf_channels(*self),
        ensures
            r == rdf_reflection_s(*self, channel as int),
    {
        match self {
            Rdf::Inert => 0,
            Rdf::Diffuse(diffuse) => diffuse.reflection(channel),
        }
    }
}

} // verus!

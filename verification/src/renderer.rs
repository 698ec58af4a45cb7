//! The rendering engine: sphere-tracing intersector, stochastic path
//! integrator and progressive accumulation buffer.

use vstd::prelude::*;
use crate::fixed::{SCALE, COORD_LIMIT, TRACE_LIMIT, POINT_LIMIT, VEC_LIMIT, EMISSION_LIMIT, PATH_LIMIT, LIGHT_LIMIT, fx_mul_s, fx_div_s, fx_pow_s, clamp01_s, dtz, fx_mul, fx_half, fx_clamp01, fx_div, fx_pow, lemma_fx_mul_abs, lemma_fx_mul_unit};
use crate::vec3::{Vec3, in_range, dot_v};
use crate::shape::{sdf_shape_s, normal_shape_s};
use crate::rtrf::rtrf_ratio_s;
use crate::rdf::rdf_reflection_s;
use crate::config::{Config, config_wf};
use crate::camera::{Camera, camera_wf};
use crate::object::{Object, object_renderable};
use crate::rng::draw_unit;

verus! {

/// One bounce's contribution: reflectance-weighted cosine term, emission,
/// and attenuation over the distance traveled.
pub type PathSegment = (i64, i64, i64);

pub struct Renderer {
    pub config: Config,
    pub camera: Camera,
    pub scene: Vec<Object>,
    pub image: Vec<i128>,
    pub iteration: usize,
}

/// The immutable rendering state is usable: parameters in range, the
/// camera's basis bounded, and every scene object renderable against the
/// configured channel count.
pub open spec fn setup_wf(r: Renderer) -> bool {
    &&& config_wf(r.config)
    &&& camera_wf(r.camera)
    &&& forall|i: int|
        0 <= i < r.scene@.len() ==> object_renderable(
            #[trigger] r.scene@[i],
            r.config.channels as nat,
        )
}

/// The whole renderer is usable: its buffer has one slot per pixel and
/// channel, and no slot exceeds what the completed iterations can have
/// accumulated.
pub open spec fn renderer_wf(r: Renderer) -> bool {
    &&& setup_wf(r)
    &&& r.image@.len() == (r.config.width as int) * (r.config.height as int) * (
    r.config.channels as int)
    &&& forall|i: int|
        0 <= i < r.image@.len() ==> 0 <= #[trigger] r.image@[i] <= (r.iteration as int) * (
        LIGHT_LIMIT as int)
}

/// The backward path reduction `light = (light * a + b) * c`, applied
/// from the deepest segment toward the camera: the head segment of the
/// sequence encloses the reduction of its tail.
pub open spec fn reduce_s(s: Seq<PathSegment>) -> int
    decreases s.len(),
{
    if s.len() == 0 {
        0
    } else {
        fx_mul_s(fx_mul_s(reduce_s(s.drop_first()), s[0].0 as int) + s[0].1 as int, s[0].2 as int)
    }
}

/// Every segment's terms are in range: weight and attenuation in
/// `[0, 1]`, emission within the representable band.
pub open spec fn segments_wf(s: Seq<PathSegment>) -> bool {
    forall|k: int|
        0 <= k < s.len() ==> {
            &&& 0 <= (#[trigger] s[k]).0 <= SCALE
            &&& 0 <= s[k].1 <= EMISSION_LIMIT
            &&& 0 <= s[k].2 <= SCALE
        }
}

/// Reduce a path into its radiance value, exactly as `reduce_s` states;
/// the result of an `n`-segment path never exceeds `n` times the largest
/// emission.
pub fn reduce_path(path: &Vec<PathSegment>) -> (r: i64)
    requires
        path@.len() <= PATH_LIMIT,
        segments_wf(path@),
    ensures
        r == reduce_s(path@),
        0 <= r <= (path@.len() as int) * (EMISSION_LIMIT as int),
{
    let ghost n = path@.len() as int;
    let mut light: i64 = 0;
    let mut j: usize = path.len();
    proof {
        assert(path@.subrange(n, n) =~= Seq::<PathSegment>::empty());
    }
    while j > 0
        invariant
            0 <= j <= n,
            n == path@.len(),
            n <= PATH_LIMIT,
            segments_wf(path@),
            light == reduce_s(path@.subrange(j as int, n)),
            0 <= light <= (n - j) * (EMISSION_LIMIT as int),
        decreases j,
    {
        j = j - 1;
        let seg: PathSegment = path[j];
        proof {
            assert(0 <= seg.0 <= SCALE && 0 <= seg.1 <= EMISSION_LIMIT && 0 <= seg.2 <= SCALE);
            lemma_fx_mul_unit(light as int, seg.0 as int);
            lemma_fx_mul_unit(fx_mul_s(light as int, seg.0 as int) + seg.1, seg.2 as int);
        }
        let inner: i64 = fx_mul(light, seg.0) + seg.1;
        light = fx_mul(inner, seg.2);
        proof {
            assert(path@.subrange(j as int, n).drop_first() =~= path@.subrange(j + 1, n));
            assert(path@.subrange(j as int, n)[0] == seg);
        }
    }
    proof {
        assert(path@.subrange(0, n) =~= path@);
    }
    light
}

/// The point `position + direction * t`, componentwise.
pub open spec fn point_at(position: Vec3, direction: Vec3, t: int) -> Vec3 {
    Vec3 {
        x: (position.x + fx_mul_s(direction.x as int, t)) as i64,
        y: (position.y + fx_mul_s(direction.y as int, t)) as i64,
        z: (position.z + fx_mul_s(direction.z as int, t)) as i64,
    }
}

/// Whether object `j`, at signed distance `s` from the march point at
/// travel `t`, may become the running minimum: it is not yet within the
/// accuracy threshold, or its surface at the prospectively advanced
/// point faces against the ray (the backface guard).
pub open spec fn accept_s(r: Renderer, position: Vec3, direction: Vec3, t: int, j: int, s: int) -> bool {
    ||| s > r.config.ray_accuracy
    ||| ({
        let n = normal_shape_s(
            r.scene@[j].shape,
            point_at(position, direction, t + s),
            r.config.normal_epsilon,
        );
        dtz(
            n.0 * (direction.x as int) + n.1 * (direction.y as int) + n.2 * (direction.z as int),
            SCALE as int,
        ) < 0
    })
}

/// The nearest accepted candidate among the first `n` objects at travel
/// `t`: the scan the intersector performs at each step, in scene order.
pub open spec fn best_candidate_s(
    r: Renderer,
    position: Vec3,
    direction: Vec3,
    t: int,
    n: int,
) -> Option<(int, int)>
    decreases n,
{
    if n <= 0 {
        Option::None
    } else {
        let prev = best_candidate_s(r, position, direction, t, n - 1);
        let s = sdf_shape_s(r.scene@[n - 1].shape, point_at(position, direction, t));
        let better = match prev {
            Option::None => true,
            Option::Some(b) => s < b.0,
        };
        if better && accept_s(r, position, direction, t, n - 1, s) {
            Option::Some((s, n - 1))
        } else {
            prev
        }
    }
}

/// The sphere-tracing march from travel `t`: step by the nearest
/// accepted signed distance; miss once the travel exceeds the maximum,
/// or when no candidate is accepted; hit with the half-step midpoint
/// correction once the step falls below the accuracy threshold.
pub open spec fn march_s(r: Renderer, position: Vec3, direction: Vec3, t: int) -> Option<(int, int)>
    decreases r.config.ray_max - t + 1,
{
    match best_candidate_s(r, position, direction, t, r.scene@.len() as int) {
        Option::None => Option::None,
        Option::Some(c) => {
            let t2 = t + c.0;
            if t2 > r.config.ray_max {
                Option::None
            } else if c.0 < r.config.ray_accuracy {
                Option::Some((t2 + dtz(c.0, 2), c.1))
            } else if t2 > t {
                march_s(r, position, direction, t2)
            } else {
                Option::None
            }
        },
    }
}

/// The attenuation of one bounce's travel: `1 - attenuation[channel]`
/// raised to the distance, or one where the hit lies behind the origin.
pub open spec fn travel_s(r: Renderer, channel: int, distance: int) -> int {
    if distance >= 0 {
        fx_pow_s((SCALE as int) - r.config.attenuation@[channel], distance)
    } else {
        SCALE as int
    }
}

impl Renderer {
    /// A renderer over the given configuration, camera and scene, with a
    /// zeroed accumulation buffer and no completed iterations.
    pub fn new(config: Config, camera: Camera, scene: Vec<Object>) -> (r: Renderer)
        requires
            config_wf(config),
            camera_wf(camera),
            forall|i: int|
                0 <= i < scene@.len() ==> object_renderable(
                    #[trigger] scene@[i],
                    config.channels as nat,
                ),
        ensures
            renderer_wf(r),
            r.config == config,
            r.camera == camera,
            r.scene == scene,
            r.iteration == 0,
            r.image@.len() == (config.width as int) * (config.height as int) * (
            config.channels as int),
            forall|i: int| 0 <= i < r.image@.len() ==> #[trigger] r.image@[i] == 0,
    {
        proof {
            assert((config.width as int) * (config.height as int) * (config.channels as int)
                >= (config.width as int) * (config.height as int) >= config.width as int)
                by (nonlinear_arith)
                requires
                    config.width >= 1,
                    config.height >= 1,
                    config.channels >= 1,
            ;
        }
        let wh: usize = config.width * config.height;
        proof {
            assert((config.width as int) * (config.height as int) * (config.channels as int)
                == (wh as int) * (config.channels as int)) by (nonlinear_arith)
                requires
                    wh as int == (config.width as int) * (config.height as int),
            ;
        }
        let total: usize = wh * config.channels;
        let image: Vec<i128> = vec![0i128; total];
        Renderer { config, camera, scene, image, iteration: 0 }
    }

    /// One accumulated slot of the buffer, by its linear index.
    pub fn sample(&self, index: usize) -> (r: i128)
        requires
            (index as int) < self.image@.len(),
        ensures
            r == self.image@[index as int],
    {
        self.image[index]
    }

    /// How many full-image iterations have been accumulated.
    pub fn iteration(&self) -> (r: usize)
        ensures
            r == self.iteration,
    {
        self.iteration
    }

    /// Sphere tracing: advance the ray by the least signed distance any
    /// object reports, skipping candidates already within the accuracy
    /// threshold whose surface faces along the ray, until the least
    /// distance falls below the accuracy threshold (a hit, with a
    /// half-step midpoint correction) or the travel exceeds the
    /// configured maximum (no hit).
    pub fn intersect(&self, position: Vec3, direction: Vec3) -> (r: Option<(i64, usize)>)
        requires
            setup_wf(*self),
            in_range(position, TRACE_LIMIT as int),
            in_range(direction, SCALE as int),
        ensures
            (match r {
                Option::Some(hit) => {
                    &&& march_s(*self, position, direction, 0) == Option::Some(
                        (hit.0 as int, hit.1 as int),
                    )
                    &&& (hit.1 as int) < self.scene@.len()
                    &&& -2 * (COORD_LIMIT as int) <= hit.0 <= self.config.ray_max
                        + self.config.ray_accuracy
                },
                Option::None => march_s(*self, position, direction, 0) is None,
            }),
            self.scene@.len() == 0 ==> r is None,
    {
        let mut t: i64 = 0;
        loop
            invariant
                setup_wf(*self),
                in_range(position, TRACE_LIMIT as int),
                in_range(direction, SCALE as int),
                0 <= t <= self.config.ray_max,
                march_s(*self, position, direction, t as int) == march_s(
                    *self,
                    position,
                    direction,
                    0,
                ),
            decreases self.config.ray_max - t,
        {
            proof {
                lemma_fx_mul_abs(direction.x as int, t as int, SCALE as int, COORD_LIMIT as int);
                lemma_fx_mul_abs(direction.y as int, t as int, SCALE as int, COORD_LIMIT as int);
                lemma_fx_mul_abs(direction.z as int, t as int, SCALE as int, COORD_LIMIT as int);
            }
            let p: Vec3 = position.plus(&direction.times(t));
            proof {
                assert(p == point_at(position, direction, t as int));
            }
            let mut found: bool = false;
            let mut min_t: i64 = 0;
            let mut min_obj: usize = 0;
            let mut j: usize = 0;
            while j < self.scene.len()
                invariant
                    setup_wf(*self),
                    in_range(position, TRACE_LIMIT as int),
                    in_range(direction, SCALE as int),
                    0 <= t <= self.config.ray_max,
                    in_range(p, POINT_LIMIT as int),
                    p == point_at(position, direction, t as int),
                    j <= self.scene@.len(),
                    found ==> (min_obj as int) < self.scene@.len(),
                    found ==> -(COORD_LIMIT as int) <= min_t <= 3037000499,
                    (if found {
                        best_candidate_s(*self, position, direction, t as int, j as int)
                            == Option::Some((min_t as int, min_obj as int))
                    } else {
                        best_candidate_s(*self, position, direction, t as int, j as int) is None
                    }),
                decreases self.scene@.len() - j,
            {
                proof {
                    assert(object_renderable(self.scene@[j as int], self.config.channels as nat));
                }
                let object = &self.scene[j];
                let s: i64 = object.shape.sdf(p);
                if !found || s < min_t {
                    let accept: bool;
                    if s > self.config.ray_accuracy {
                        accept = true;
                        proof {
                            assert(accept_s(*self, position, direction, t as int, j as int, s as int));
                        }
                    } else {
                        let t2: i64 = t + s;
                        proof {
                            lemma_fx_mul_abs(
                                direction.x as int,
                                t2 as int,
                                SCALE as int,
                                COORD_LIMIT as int + SCALE as int,
                            );
                            lemma_fx_mul_abs(
                                direction.y as int,
                                t2 as int,
                                SCALE as int,
                                COORD_LIMIT as int + SCALE as int,
                            );
                            lemma_fx_mul_abs(
                                direction.z as int,
                                t2 as int,
                                SCALE as int,
                                COORD_LIMIT as int + SCALE as int,
                            );
                        }
                        let q: Vec3 = position.plus(&direction.times(t2));
                        proof {
                            assert(q == point_at(position, direction, t + s));
                        }
                        let n: Vec3 = object.shape.normal(q, self.config.normal_epsilon);
                        let d: i64 = n.dot(&direction);
                        accept = d < 0;
                        proof {
                            assert(accept == accept_s(
                                *self,
                                position,
                                direction,
                                t as int,
                                j as int,
                                s as int,
                            ));
                        }
                    }
                    if accept {
                        min_t = s;
                        min_obj = j;
                        found = true;
                    }
                }
                j = j + 1;
            }
            if !found {
                return Option::None;
            }
            let t_next: i64 = t + min_t;
            if t_next > self.config.ray_max {
                return Option::None;
            }
            if min_t < self.config.ray_accuracy {
                let d: i64 = t_next + fx_half(min_t);
                return Option::Some((d, min_obj));
            }
            proof {
                assert(t_next > t);
                assert(march_s(*self, position, direction, t as int) == march_s(
                    *self,
                    position,
                    direction,
                    t_next as int,
                ));
            }
            t = t_next;
        }
    }

    /// The path segment one bounce contributes, from the hit's object
    /// and distance, the uniform decision draw, and - when the draw
    /// reflects - the sampled outgoing direction and the surface normal:
    /// the photon reflects exactly when the channel's ratio exceeds the
    /// draw; the segment's weight is the reflectance times the clamped
    /// cosine of the sampled direction against the normal (the
    /// reflectance alone on absorption); its emission is the object's;
    /// its travel term attenuates the hit distance.
    pub fn bounce_segment(
        &self,
        channel: usize,
        index: usize,
        distance: i64,
        draw: i64,
        sampled: Vec3,
        normal: Vec3,
    ) -> (seg: PathSegment)
        requires
            setup_wf(*self),
            (channel as int) < self.config.channels,
            (index as int) < self.scene@.len(),
            -2 * (COORD_LIMIT as int) <= distance <= self.config.ray_max
                + self.config.ray_accuracy,
            in_range(sampled, SCALE as int),
            in_range(normal, SCALE as int),
        ensures
            seg.0 == if rtrf_ratio_s(self.scene@[index as int].material.rtrf, channel as int)
                > draw {
                fx_mul_s(
                    rdf_reflection_s(self.scene@[index as int].material.rdf, channel as int),
                    clamp01_s(dot_v(sampled, normal)),
                )
            } else {
                rdf_reflection_s(self.scene@[index as int].material.rdf, channel as int)
            },
            seg.1 == self.scene@[index as int].material.emission@[channel as int],
            seg.2 == travel_s(*self, channel as int, distance as int),
            0 <= seg.0 <= SCALE,
            0 <= seg.1 <= EMISSION_LIMIT,
            0 <= seg.2 <= SCALE,
    {
        proof {
            assert(object_renderable(self.scene@[index as int], self.config.channels as nat));
        }
        let object = &self.scene[index];
        let ratio: i64 = object.material.rtrf.ratio(channel);
        let mut dot_term: i64 = SCALE;
        if ratio > draw {
            let d: i64 = sampled.dot(&normal);
            dot_term = fx_clamp01(d);
        }
        let refl: i64 = object.material.rdf.reflection(channel);
        proof {
            lemma_fx_mul_abs(refl as int, dot_term as int, SCALE as int, SCALE as int);
            lemma_fx_mul_unit(refl as int, dot_term as int);
            assert(fx_mul_s(refl as int, SCALE as int) == refl as int) by (nonlinear_arith)
                requires
                    0 <= refl,
                    fx_mul_s(refl as int, SCALE as int) == dtz((refl as int) * 65536, 65536),
            ;
        }
        let a: i64 = fx_mul(refl, dot_term);
        let b: i64 = object.material.emission[channel];
        let att: i64 = self.config.attenuation[channel];
        let base: i64 = SCALE - att;
        let c: i64 = if distance >= 0 {
            fx_pow(base, distance)
        } else {
            // A backward hit distance can arise when the ray starts
            // inside an object; no forward travel is attenuated.
            SCALE
        };
        (a, b, c)
    }

    /// One radiance sample for a camera ray on one channel: walk up to
    /// `path_length` bounces, each bounce either reflecting into a
    /// sampled direction (with its cosine weight) or being absorbed and
    /// ending the path, then reduce the recorded segments backward.
    /// Whatever the random draws, the sample is non-negative and bounded
    /// by the largest radiance a path can carry; where no draw can
    /// change the outcome, the sample is pinned: a ray that hits nothing
    /// contributes zero, and a first hit on a never-reflecting object
    /// contributes its emission under the travel term.
    pub fn trace(&self, position: Vec3, direction: Vec3, channel: usize) -> (r: i64)
        requires
            setup_wf(*self),
            (channel as int) < self.config.channels,
            in_range(position, TRACE_LIMIT as int),
            in_range(direction, SCALE as int),
        ensures
            0 <= r <= LIGHT_LIMIT,
            self.scene@.len() == 0 ==> r == 0,
            march_s(*self, position, direction, 0) is None ==> r == 0,
            (match march_s(*self, position, direction, 0) {
                Option::Some(h) => (self.config.path_length >= 1 && rtrf_ratio_s(
                    self.scene@[h.1].material.rtrf,
                    channel as int,
                ) == 0) ==> r == fx_mul_s(
                    self.scene@[h.1].material.emission@[channel as int] as int,
                    travel_s(*self, channel as int, h.0),
                ),
                Option::None => true,
            }),
    {
        let ghost m0 = march_s(*self, position, direction, 0);
        let ghost det = match m0 {
            Option::Some(h) => rtrf_ratio_s(self.scene@[h.1].material.rtrf, channel as int) == 0,
            Option::None => false,
        };
        proof {
            if self.scene@.len() == 0 {
                assert(best_candidate_s(*self, position, direction, 0, 0) is None);
                assert(m0 is None);
            }
        }
        let mut path: Vec<PathSegment> = Vec::new();
        let mut pos: Vec3 = position;
        let mut dir: Vec3 = direction;
        let mut i: usize = 0;
        while i < self.config.path_length
            invariant_except_break
                path@.len() == i,
                i <= self.config.path_length,
                m0 is None ==> (pos == position && dir == direction && path@.len() == 0),
                det ==> (pos == position && dir == direction && path@.len() == 0),
            invariant
                setup_wf(*self),
                (channel as int) < self.config.channels,
                in_range(pos, TRACE_LIMIT as int),
                in_range(dir, SCALE as int),
                segments_wf(path@),
                path@.len() <= self.config.path_length,
                m0 == march_s(*self, position, direction, 0),
                det == (match m0 {
                    Option::Some(h) => rtrf_ratio_s(
                        self.scene@[h.1].material.rtrf,
                        channel as int,
                    ) == 0,
                    Option::None => false,
                }),
            ensures
                segments_wf(path@),
                path@.len() <= self.config.path_length,
                m0 is None ==> path@.len() == 0,
                det && self.config.path_length >= 1 ==> (match m0 {
                    Option::Some(h) => {
                        &&& path@.len() == 1
                        &&& path@[0].1 as int == self.scene@[h.1].material.emission@[channel as int]
                        &&& path@[0].2 as int == travel_s(*self, channel as int, h.0)
                    },
                    Option::None => true,
                }),
            decreases self.config.path_length - i,
        {
            let hit = self.intersect(pos, dir);
            let (distance, index): (i64, usize) = match hit {
                Option::None => { break },
                Option::Some(h) => h,
            };
            proof {
                assert(object_renderable(self.scene@[index as int], self.config.channels as nat));
            }
            let object = &self.scene[index];
            let mut stop: bool = false;
            let ratio: i64 = object.material.rtrf.ratio(channel);
            let draw: i64 = draw_unit();
            let seg: PathSegment;
            if ratio > draw {
                proof {
                    lemma_fx_mul_abs(
                        dir.x as int,
                        distance as int,
                        SCALE as int,
                        2 * COORD_LIMIT as int,
                    );
                    lemma_fx_mul_abs(
                        dir.y as int,
                        distance as int,
                        SCALE as int,
                        2 * COORD_LIMIT as int,
                    );
                    lemma_fx_mul_abs(
                        dir.z as int,
                        distance as int,
                        SCALE as int,
                        2 * COORD_LIMIT as int,
                    );
                }
                let new_position: Vec3 = pos.plus(&dir.times(distance));
                let normal: Vec3 = object.shape.normal(pos, self.config.normal_epsilon);
                let sampled: Vec3 = object.material.rdf.random(dir, normal);
                seg = self.bounce_segment(channel, index, distance, draw, sampled, normal);
                if -TRACE_LIMIT <= new_position.x && new_position.x <= TRACE_LIMIT
                    && -TRACE_LIMIT <= new_position.y && new_position.y <= TRACE_LIMIT
                    && -TRACE_LIMIT <= new_position.z && new_position.z <= TRACE_LIMIT {
                    pos = new_position;
                    dir = sampled;
                } else {
                    // The next origin would leave the representable
                    // coordinate box: the path cannot be extended.
                    stop = true;
                }
            } else {
                // Absorbed: this bounce's segment is the path's last.
                seg = self.bounce_segment(channel, index, distance, draw, dir, dir);
                stop = true;
            }
            path.push(seg);
            if stop {
                break ;
            }
            i = i + 1;
        }
        proof {
            assert((path@.len() as int) * (EMISSION_LIMIT as int) <= (PATH_LIMIT as int) * (
            EMISSION_LIMIT as int)) by (nonlinear_arith)
                requires
                    0 <= path@.len() <= PATH_LIMIT,
            ;
        }
        let light: i64 = reduce_path(&path);
        proof {
            if m0 is None {
                assert(path@.len() == 0);
                assert(light == 0);
            }
            if det && self.config.path_length >= 1 {
                let seg0 = path@[0];
                assert(path@ =~= seq![seg0]);
                lemma_reduce_single(seg0.0, seg0.1, seg0.2);
            }
        }
        light
    }
}

/// The per-pixel step `1 / (n - 1)` keeps every scaled pixel coordinate
/// inside the unit interval.
proof fn lemma_pixel_step(n: int)
    requires
        2 <= n <= 1048576,
    ensures
        0 <= fx_div_s(SCALE as int, (n - 1) * (SCALE as int)) <= SCALE as int,
        forall|m: int|
            0 <= m < n ==> 0 <= #[trigger] (fx_div_s(SCALE as int, (n - 1) * (SCALE as int)) * m)
                <= SCALE as int,
{
    let q = fx_div_s(SCALE as int, (n - 1) * (SCALE as int));
    assert(0 <= q <= 65536) by (nonlinear_arith)
        requires
            q == dtz(65536int * 65536, (n - 1) * 65536),
            2 <= n <= 1048576,
    ;
    assert forall|m: int| 0 <= m < n implies 0 <= #[trigger] (q * m) <= SCALE as int by {
        assert(0 <= q * m <= 65536) by (nonlinear_arith)
            requires
                q == dtz(65536int * 65536, (n - 1) * 65536),
                2 <= n <= 1048576,
                0 <= m < n,
        ;
    }
}

/// The linear slot of pixel `(x, y)`, channel `c`, lies inside the
/// buffer.
proof fn lemma_slot_index(y: int, x: int, c: int, w: int, h: int, ch: int)
    requires
        0 <= y < h,
        0 <= x < w,
        0 <= c < ch,
    ensures
        0 <= (y * w + x) * ch + c < w * h * ch,
        (y * w) * ch <= (y * w + x) * ch + c < ((y + 1) * w) * ch <= (h * w) * ch,
        (h * w) * ch == w * h * ch,
        0 <= y * w <= y * w + x <= (y * w + x) * ch + c,
{
    assert((y * w) * ch <= (y * w + x) * ch + c < ((y + 1) * w) * ch <= (h * w) * ch
        && (h * w) * ch == w * h * ch && 0 <= (y * w + x) * ch + c
        && 0 <= y * w <= y * w + x <= (y * w + x) * ch + c) by (nonlinear_arith)
        requires
            0 <= y < h,
            0 <= x < w,
            0 <= c < ch,
    ;
}

/// The buffer `cur` relates to `prev` by accumulation: every slot before
/// `boundary` has gained at most `done + 1` samples, every slot after it
/// at most `done`, and no slot has decreased.
spec fn accum_ok(prev: Seq<i128>, cur: Seq<i128>, boundary: int, done: int) -> bool {
    &&& cur.len() == prev.len()
    &&& forall|i: int|
        0 <= i < boundary && i < cur.len() ==> prev[i] <= #[trigger] cur[i] <= prev[i] + (done + 1)
            * (LIGHT_LIMIT as int)
    &&& forall|i: int|
        boundary <= i < cur.len() ==> prev[i] <= #[trigger] cur[i] <= prev[i] + done * (
        LIGHT_LIMIT as int)
}

impl Renderer {
    /// Accumulate `iterations` further full-image sweeps: for every
    /// pixel and channel, trace one jittered camera ray per sweep and
    /// add the sample into the slot. Accumulation only adds: no slot
    /// decreases, no slot gains more than one maximal sample per sweep,
    /// and the iteration counter advances by exactly `iterations`.
    pub fn render(&mut self, iterations: usize)
        requires
            renderer_wf(*old(self)),
            (old(self).iteration as int) + (iterations as int) <= usize::MAX as int,
        ensures
            renderer_wf(*final(self)),
            final(self).config == old(self).config,
            final(self).camera == old(self).camera,
            final(self).scene == old(self).scene,
            final(self).iteration == old(self).iteration + iterations,
            final(self).image@.len() == old(self).image@.len(),
            forall|i: int|
                0 <= i < old(self).image@.len() ==> old(self).image@[i]
                    <= #[trigger] final(self).image@[i] <= old(self).image@[i] + (
                iterations as int) * (LIGHT_LIMIT as int),
            old(self).scene@.len() == 0 ==> final(self).image@ == old(self).image@,
    {
        let w: usize = self.config.width;
        let h: usize = self.config.height;
        let ch: usize = self.config.channels;
        proof {
            lemma_pixel_step(w as int);
            lemma_pixel_step(h as int);
        }
        let dx: i64 = fx_div(SCALE, ((w - 1) as i64) * SCALE);
        let dy: i64 = fx_div(SCALE, ((h - 1) as i64) * SCALE);
        let mut k: usize = 0;
        while k < iterations
            invariant
                renderer_wf(*old(self)),
                (old(self).iteration as int) + (iterations as int) <= usize::MAX as int,
                self.config == old(self).config,
                self.camera == old(self).camera,
                self.scene == old(self).scene,
                self.iteration == old(self).iteration,
                w == self.config.width,
                h == self.config.height,
                ch == self.config.channels,
                dx == fx_div_s(SCALE as int, (w as int - 1) * (SCALE as int)),
                dy == fx_div_s(SCALE as int, (h as int - 1) * (SCALE as int)),
                0 <= dx <= SCALE,
                0 <= dy <= SCALE,
                k <= iterations,
                accum_ok(old(self).image@, self.image@, 0, k as int),
                old(self).scene@.len() == 0 ==> self.image@ == old(self).image@,
            decreases iterations - k,
        {
            let shift_x: i64 = draw_unit() - 32768;
            let shift_y: i64 = draw_unit() - 32768;
            proof {
                lemma_fx_mul_abs(shift_x as int, dx as int, 32768, SCALE as int);
                lemma_fx_mul_abs(shift_y as int, dy as int, 32768, SCALE as int);
            }
            let noise_x: i64 = fx_mul(shift_x, dx);
            let noise_y: i64 = fx_mul(shift_y, dy);
            let mut y: usize = 0;
            while y < h
                invariant
                    renderer_wf(*old(self)),
                    (old(self).iteration as int) + (iterations as int) <= usize::MAX as int,
                    self.config == old(self).config,
                    self.camera == old(self).camera,
                    self.scene == old(self).scene,
                    self.iteration == old(self).iteration,
                    w == self.config.width,
                    h == self.config.height,
                    ch == self.config.channels,
                    dx == fx_div_s(SCALE as int, (w as int - 1) * (SCALE as int)),
                    dy == fx_div_s(SCALE as int, (h as int - 1) * (SCALE as int)),
                    0 <= dx <= SCALE,
                    0 <= dy <= SCALE,
                    -32768 <= noise_x <= 32768,
                    -32768 <= noise_y <= 32768,
                    k < iterations,
                    y <= h,
                    accum_ok(old(self).image@, self.image@, ((y * w) * ch) as int, k as int),
                    old(self).scene@.len() == 0 ==> self.image@ == old(self).image@,
                decreases h - y,
            {
                proof {
                    lemma_pixel_step(h as int);
                }
                let scaled_y: i64 = dy * (y as i64);
                let mut x: usize = 0;
                while x < w
                    invariant
                        renderer_wf(*old(self)),
                        (old(self).iteration as int) + (iterations as int) <= usize::MAX as int,
                        self.config == old(self).config,
                        self.camera == old(self).camera,
                        self.scene == old(self).scene,
                        self.iteration == old(self).iteration,
                        w == self.config.width,
                        h == self.config.height,
                        ch == self.config.channels,
                        dx == fx_div_s(SCALE as int, (w as int - 1) * (SCALE as int)),
                        0 <= dx <= SCALE,
                        -32768 <= noise_x <= 32768,
                        -32768 <= noise_y <= 32768,
                        0 <= scaled_y <= SCALE,
                        k < iterations,
                        y < h,
                        x <= w,
                        accum_ok(old(self).image@, self.image@, ((y * w + x) * ch) as int, k as int),
                        old(self).scene@.len() == 0 ==> self.image@ == old(self).image@,
                    decreases w - x,
                {
                    proof {
                        lemma_pixel_step(w as int);
                    }
                    let scaled_x: i64 = dx * (x as i64);
                    let mut channel: usize = 0;
                    while channel < ch
                        invariant
                            renderer_wf(*old(self)),
                            (old(self).iteration as int) + (iterations as int) <= usize::MAX as int,
                            self.config == old(self).config,
                            self.camera == old(self).camera,
                            self.scene == old(self).scene,
                            self.iteration == old(self).iteration,
                            w == self.config.width,
                            h == self.config.height,
                            ch == self.config.channels,
                            -32768 <= noise_x <= 32768,
                            -32768 <= noise_y <= 32768,
                            0 <= scaled_y <= SCALE,
                            0 <= scaled_x <= SCALE,
                            k < iterations,
                            y < h,
                            x < w,
                            channel <= ch,
                            accum_ok(
                                old(self).image@,
                                self.image@,
                                ((y * w + x) * ch + channel) as int,
                                k as int,
                            ),
                            old(self).scene@.len() == 0 ==> self.image@ == old(self).image@,
                        decreases ch - channel,
                    {
                        proof {
                            lemma_slot_index(
                                y as int,
                                x as int,
                                channel as int,
                                w as int,
                                h as int,
                                ch as int,
                            );
                            assert(setup_wf(*self));
                        }
                        let row: usize = y * w;
                        let base: usize = (row + x) * ch;
                        let idx: usize = base + channel;
                        let (position, direction) = self.camera.ray(
                            scaled_x + noise_x,
                            scaled_y + noise_y,
                        );
                        let light: i64 = self.trace(position, direction, channel);
                        let cur: i128 = self.image[idx];
                        proof {
                            let prev_slot = old(self).image@[idx as int];
                            let done_before = old(self).iteration as int;
                            assert(cur + (light as int) < 0x10000000000000000000000000000)
                                by (nonlinear_arith)
                                requires
                                    cur <= prev_slot + ((k as int) + 1) * (LIGHT_LIMIT as int),
                                    prev_slot <= done_before * (LIGHT_LIMIT as int),
                                    done_before + (iterations as int) <= 0xffffffffffffffff,
                                    0 <= done_before,
                                    0 <= k < iterations,
                                    iterations <= 0xffffffffffffffff,
                                    0 <= light <= LIGHT_LIMIT,
                                    LIGHT_LIMIT == 8796093022208,
                            ;
                        }
                        let ghost before_update = self.image@;
                        self.image[idx] = cur + (light as i128);
                        proof {
                            if old(self).scene@.len() == 0 {
                                assert(light == 0);
                                assert(self.image@ =~= before_update);
                            }
                        }
                        channel = channel + 1;
                    }
                    proof {
                        assert((y * w + x) * ch + ch == (y * w + (x + 1)) * ch) by (nonlinear_arith)
                            requires
                                0 <= y,
                                0 <= x,
                                0 <= ch,
                        ;
                    }
                    x = x + 1;
                }
                proof {
                    assert((y * w + w) * ch == ((y + 1) * w) * ch) by (nonlinear_arith)
                        requires
                            0 <= y,
                            0 <= w,
                            0 <= ch,
                    ;
                }
                y = y + 1;
            }
            proof {
                assert((h * w) * ch == (w as int) * (h as int) * (ch as int)) by (nonlinear_arith);
                assert(accum_ok(old(self).image@, self.image@, 0, (k + 1) as int));
            }
            k = k + 1;
        }
        proof {
            assert(forall|i: int|
                0 <= i < self.image@.len() ==> 0 <= #[trigger] self.image@[i] <= ((
                old(self).iteration as int) + (iterations as int)) * (LIGHT_LIMIT as int));
        }
        self.iteration = self.iteration + iterations;
    }
}

/// The largest value the buffer holds (zero for an empty buffer; no
/// slot is negative in a well-formed renderer).
pub open spec fn seq_max(s: Seq<i128>) -> int
    decreases s.len(),
{
    if s.len() == 0 {
        0
    } else {
        let rest = seq_max(s.drop_last());
        if s.last() as int > rest {
            s.last() as int
        } else {
            rest
        }
    }
}

/// No element exceeds the sequence's maximum.
pub proof fn lemma_seq_max_ge(s: Seq<i128>, i: int)
    requires
        0 <= i < s.len(),
    ensures
        s[i] as int <= seq_max(s),
    decreases s.len(),
{
    if i == s.len() - 1 {
    } else {
        lemma_seq_max_ge(s.drop_last(), i);
    }
}

/// Max-normalization of one accumulated value: the value rescaled so the
/// buffer's maximum maps to one; an all-zero buffer maps to zero.
pub open spec fn norm_s(v: int, m: int) -> int {
    if m == 0 {
        0
    } else {
        (v * (SCALE as int)) / m
    }
}

/// The 8-bit quantization of a scalar in `[0, 1]`: `255 * q`, rounded
/// half-up.
pub open spec fn byte_s(q: int) -> int {
    (255 * q + 32768) / (SCALE as int)
}

/// The packed pixel of three normalized, gamma-mapped channels at pixel
/// `i`: `(r << 16) + (g << 8) + b` as a number.
pub open spec fn pixel_s(img: Seq<i128>, i: int, m: int, gamma: int) -> int {
    byte_s(fx_pow_s(norm_s(img[3 * i] as int, m), gamma)) * 65536 + byte_s(
        fx_pow_s(norm_s(img[3 * i + 1] as int, m), gamma),
    ) * 256 + byte_s(fx_pow_s(norm_s(img[3 * i + 2] as int, m), gamma))
}

/// Max-normalization is invariant under scaling every accumulated value
/// and therefore the maximum by one positive constant.
pub proof fn lemma_norm_scale_invariant(v: int, m: int, k: int)
    requires
        0 <= v,
        0 <= m,
        1 <= k,
    ensures
        norm_s(k * v, k * m) == norm_s(v, m),
{
    if m == 0 {
        assert(k * m == 0) by (nonlinear_arith)
            requires
                m == 0,
        ;
    } else {
        let q = (v * 65536) / m;
        let r = (v * 65536) % m;
        vstd::arithmetic::div_mod::lemma_fundamental_div_mod(v * 65536, m);
        vstd::arithmetic::div_mod::lemma_mod_division_less_than_divisor(v * 65536, m);
        assert(k * (v * 65536) == q * (k * m) + k * r && 0 <= k * r < k * m && (k * v) * 65536 == k
            * (v * 65536)) by (nonlinear_arith)
            requires
                v * 65536 == m * q + r,
                0 <= r < m,
                1 <= k,
        ;
        vstd::arithmetic::div_mod::lemma_fundamental_div_mod_converse_div(
            (k * v) * 65536,
            k * m,
            q,
            k * r,
        );
    }
}

/// The reduction of a one-segment path: the emission attenuated by the
/// travel term. With no emission the sample is zero whatever the weight;
/// with no attenuation the sample equals the emission exactly.
pub proof fn lemma_reduce_single(a: i64, b: i64, c: i64)
    requires
        0 <= a <= SCALE,
        0 <= b,
        0 <= c <= SCALE,
    ensures
        reduce_s(seq![(a, b, c)]) == fx_mul_s(b as int, c as int),
        b == 0 ==> reduce_s(seq![(a, b, c)]) == 0,
        c == SCALE ==> reduce_s(seq![(a, b, c)]) == b,
{
    let s = seq![(a, b, c)];
    assert(s.drop_first() =~= Seq::<PathSegment>::empty());
    assert(reduce_s(s.drop_first()) == 0);
    assert(fx_mul_s(0, a as int) == 0);
    if c == SCALE {
        assert((b as int) * 65536 / 65536 == b as int) by (nonlinear_arith);
    }
}

/// One value rescaled against the buffer maximum, exactly as `norm_s`.
fn norm_slot(v: i128, m: i128) -> (q: i64)
    requires
        0 <= v <= m,
        m < 0x10000000000000000000000000000,
    ensures
        q == norm_s(v as int, m as int),
        0 <= q <= SCALE,
{
    if m == 0 {
        0
    } else {
        let wide: u128 = (v as u128) * 65536;
        let q: u128 = wide / (m as u128);
        proof {
            assert(0 <= (wide as int) / (m as int) <= 65536) by (nonlinear_arith)
                requires
                    wide as int == (v as int) * 65536,
                    0 <= v <= m,
                    1 <= m,
            ;
        }
        q as i64
    }
}

/// The 8-bit quantization, exactly as `byte_s`.
fn byte_slot(g: i64) -> (b: i64)
    requires
        0 <= g <= SCALE,
    ensures
        b == byte_s(g as int),
        0 <= b <= 255,
{
    let t: u64 = (255 * g + 32768) as u64;
    let b: u64 = t / 65536;
    b as i64
}

impl Renderer {
    /// The buffer's largest accumulated value.
    fn buffer_max(&self) -> (m: i128)
        ensures
            m == seq_max(self.image@),
            m >= 0,
            forall|i: int| 0 <= i < self.image@.len() ==> #[trigger] self.image@[i] <= m,
            m == 0 || exists|i: int| 0 <= i < self.image@.len() && m == self.image@[i],
    {
        let mut m: i128 = 0;
        let mut i: usize = 0;
        proof {
            assert(self.image@.take(0) =~= Seq::<i128>::empty());
        }
        while i < self.image.len()
            invariant
                i <= self.image@.len(),
                m == seq_max(self.image@.take(i as int)),
                m >= 0,
                forall|j: int| 0 <= j < i ==> #[trigger] self.image@[j] <= m,
                m == 0 || exists|j: int| 0 <= j < i && m == self.image@[j],
            decreases self.image@.len() - i,
        {
            let v: i128 = self.image[i];
            proof {
                assert(self.image@.take(i + 1).drop_last() =~= self.image@.take(i as int));
                assert(self.image@.take(i + 1).last() == self.image@[i as int]);
            }
            if v > m {
                m = v;
                proof {
                    assert(m == self.image@[i as int]);
                }
            }
            i = i + 1;
        }
        proof {
            assert(self.image@.take(self.image@.len() as int) =~= self.image@);
        }
        m
    }

    /// Tone-map the buffer into packed 8-bit pixels: every sample is
    /// divided by the buffer's maximum, raised to `gamma`, quantized to
    /// `[0, 255]` and packed as `(r << 16) + (g << 8) + b`. With the
    /// identity gamma the packed value is pinned exactly.
    pub fn rgb(&self, gamma: i64) -> (r: Vec<u32>)
        requires
            renderer_wf(*self),
            self.config.channels == 3,
            0 <= gamma <= VEC_LIMIT,
        ensures
            r@.len() == (self.config.width as int) * (self.config.height as int),
            forall|i: int| 0 <= i < r@.len() ==> #[trigger] r@[i] < 16777216,
            forall|i: int|
                0 <= i < r@.len() ==> #[trigger] r@[i] == pixel_s(
                    self.image@,
                    i,
                    seq_max(self.image@),
                    gamma as int,
                ),
    {
        let m: i128 = self.buffer_max();
        proof {
            assert((self.config.width as int) * (self.config.height as int) * 3 == ((
            self.config.width as int) * (self.config.height as int)) * 3) by (nonlinear_arith);
            assert((self.config.width as int) * (self.config.height as int) <= (
            self.config.width as int) * (self.config.height as int) * 3) by (nonlinear_arith)
                requires
                    self.config.width >= 1,
                    self.config.height >= 1,
            ;
            assert(m < 0x10000000000000000000000000000) by (nonlinear_arith)
                requires
                    m == 0 || m <= (self.iteration as int) * (LIGHT_LIMIT as int),
                    0 <= self.iteration <= 0xffffffffffffffff,
                    LIGHT_LIMIT == 8796093022208,
            ;
        }
        let count: usize = self.config.width * self.config.height;
        let mut out: Vec<u32> = Vec::new();
        let mut i: usize = 0;
        while i < count
            invariant
                renderer_wf(*self),
                self.config.channels == 3,
                0 <= gamma <= VEC_LIMIT,
                count == (self.config.width as int) * (self.config.height as int),
                self.image@.len() == count * 3,
                m == seq_max(self.image@),
                m >= 0,
                m < 0x10000000000000000000000000000,
                forall|j: int| 0 <= j < self.image@.len() ==> #[trigger] self.image@[j] <= m,
                i <= count,
                out@.len() == i,
                forall|j: int| 0 <= j < i ==> #[trigger] out@[j] < 16777216,
                forall|j: int|
                    0 <= j < i ==> #[trigger] out@[j] == pixel_s(self.image@, j, m as int, gamma as int),
            decreases count - i,
        {
            let offset: usize = i * 3;
            let vr: i128 = self.image[offset];
            let vg: i128 = self.image[offset + 1];
            let vb: i128 = self.image[offset + 2];
            let qr: i64 = norm_slot(vr, m);
            let qg: i64 = norm_slot(vg, m);
            let qb: i64 = norm_slot(vb, m);
            let br: i64 = byte_slot(fx_pow(qr, gamma));
            let bg: i64 = byte_slot(fx_pow(qg, gamma));
            let bb: i64 = byte_slot(fx_pow(qb, gamma));
            let px: u32 = (br as u32) * 65536 + (bg as u32) * 256 + (bb as u32);
            out.push(px);
            i = i + 1;
        }
        out
    }

    /// The three export planes of a three-channel buffer, each sample
    /// max-normalized into `[0, 1]`: the computation behind writing a
    /// lossless float image, left to the caller to encode.
    pub fn planes(&self) -> (r: (Vec<i64>, Vec<i64>, Vec<i64>))
        requires
            renderer_wf(*self),
            self.config.channels == 3,
        ensures
            r.0@.len() == (self.config.width as int) * (self.config.height as int),
            r.1@.len() == r.0@.len(),
            r.2@.len() == r.0@.len(),
            forall|i: int|
                0 <= i < r.0@.len() ==> #[trigger] r.0@[i] == norm_s(
                    self.image@[3 * i] as int,
                    seq_max(self.image@),
                ),
            forall|i: int|
                0 <= i < r.0@.len() ==> #[trigger] r.1@[i] == norm_s(
                    self.image@[3 * i + 1] as int,
                    seq_max(self.image@),
                ),
            forall|i: int|
                0 <= i < r.0@.len() ==> #[trigger] r.2@[i] == norm_s(
                    self.image@[3 * i + 2] as int,
                    seq_max(self.image@),
                ),
            forall|i: int| 0 <= i < r.0@.len() ==> 0 <= #[trigger] r.0@[i] <= SCALE,
            forall|i: int| 0 <= i < r.0@.len() ==> 0 <= #[trigger] r.1@[i] <= SCALE,
            forall|i: int| 0 <= i < r.0@.len() ==> 0 <= #[trigger] r.2@[i] <= SCALE,
    {
        let m: i128 = self.buffer_max();
        proof {
            assert((self.config.width as int) * (self.config.height as int) * 3 == ((
            self.config.width as int) * (self.config.height as int)) * 3) by (nonlinear_arith);
            assert((self.config.width as int) * (self.config.height as int) <= (
            self.config.width as int) * (self.config.height as int) * 3) by (nonlinear_arith)
                requires
                    self.config.width >= 1,
                    self.config.height >= 1,
            ;
            assert(m < 0x10000000000000000000000000000) by (nonlinear_arith)
                requires
                    m == 0 || m <= (self.iteration as int) * (LIGHT_LIMIT as int),
                    0 <= self.iteration <= 0xffffffffffffffff,
                    LIGHT_LIMIT == 8796093022208,
            ;
        }
        let count: usize = self.config.width * self.config.height;
        let mut pr: Vec<i64> = Vec::new();
        let mut pg: Vec<i64> = Vec::new();
        let mut pb: Vec<i64> = Vec::new();
        let mut i: usize = 0;
        while i < count
            invariant
                renderer_wf(*self),
                self.config.channels == 3,
                count == (self.config.width as int) * (self.config.height as int),
                self.image@.len() == count * 3,
                m == seq_max(self.image@),
                m >= 0,
                m < 0x10000000000000000000000000000,
                forall|j: int| 0 <= j < self.image@.len() ==> #[trigger] self.image@[j] <= m,
                i <= count,
                pr@.len() == i,
                pg@.len() == i,
                pb@.len() == i,
                forall|j: int|
                    0 <= j < i ==> #[trigger] pr@[j] == norm_s(self.image@[3 * j] as int, m as int),
                forall|j: int|
                    0 <= j < i ==> #[trigger] pg@[j] == norm_s(self.image@[3 * j + 1] as int, m as int),
                forall|j: int|
                    0 <= j < i ==> #[trigger] pb@[j] == norm_s(self.image@[3 * j + 2] as int, m as int),
                forall|j: int| 0 <= j < i ==> 0 <= #[trigger] pr@[j] <= SCALE,
                forall|j: int| 0 <= j < i ==> 0 <= #[trigger] pg@[j] <= SCALE,
                forall|j: int| 0 <= j < i ==> 0 <= #[trigger] pb@[j] <= SCALE,
            decreases count - i,
        {
            let offset: usize = i * 3;
            pr.push(norm_slot(self.image[offset], m));
            pg.push(norm_slot(self.image[offset + 1], m));
            pb.push(norm_slot(self.image[offset + 2], m));
            i = i + 1;
        }
        (pr, pg, pb)
    }
}

} // verus!

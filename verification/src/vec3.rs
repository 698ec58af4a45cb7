//! Three-component vectors over fixed-point scalars.
//!
//! Components are `i64` scalars in the encoding of [`crate::fixed`]; every
//! operation has an exact integer contract, with rounding toward zero where
//! a product or quotient is rescaled.

use vstd::prelude::*;
use crate::fixed::{SCALE, VEC_LIMIT, fx_mul_s, fx_div_s, dtz, sqrt_s, is_sqrt, isqrt, fx_mul, fx_div, div_mag};

verus! {

#[derive(Clone, Copy, Debug, PartialEq, Eq, Structural)]
pub struct Vec3 {
    pub x: i64,
    pub y: i64,
    pub z: i64,
}

/// Every component of `v` lies in `[-lim, lim]`.
pub open spec fn in_range(v: Vec3, lim: int) -> bool {
    &&& -lim <= v.x <= lim
    &&& -lim <= v.y <= lim
    &&& -lim <= v.z <= lim
}

/// Squared length, at the squared scale.
pub open spec fn lsq_v(v: Vec3) -> int {
    (v.x as int) * (v.x as int) + (v.y as int) * (v.y as int) + (v.z as int) * (v.z as int)
}

/// Length at the scalar scale: the integer square root of the squared length.
pub open spec fn len_v(v: Vec3) -> int {
    sqrt_s(lsq_v(v))
}

/// The squared length of a near-unit direction: one, up to the fixed
/// slack that truncating each component to the scalar grid can cost.
pub open spec fn unit_band(lsq: int) -> bool {
    (SCALE as int) * (SCALE as int) - 393218 <= lsq <= (SCALE as int) * (SCALE as int) + 524304
}

/// Dot product rescaled back to the scalar scale.
pub open spec fn dot_v(a: Vec3, b: Vec3) -> int {
    dtz((a.x as int) * (b.x as int) + (a.y as int) * (b.y as int) + (a.z as int) * (b.z as int), SCALE as int)
}

impl Vec3 {
    pub fn new(x: i64, y: i64, z: i64) -> (r: Vec3)
        ensures
            r.x == x && r.y == y && r.z == z,
    {
        Vec3 { x, y, z }
    }

    pub fn plus(&self, o: &Vec3) -> (r: Vec3)
        requires
            in_range(*self, 0x3fffffffffffffff),
            in_range(*o, 0x3fffffffffffffff),
        ensures
            r.x == self.x + o.x,
            r.y == self.y + o.y,
            r.z == self.z + o.z,
    {
        Vec3 { x: self.x + o.x, y: self.y + o.y, z: self.z + o.z }
    }

    pub fn minus(&self, o: &Vec3) -> (r: Vec3)
        requires
            in_range(*self, 0x3fffffffffffffff),
            in_range(*o, 0x3fffffffffffffff),
        ensures
            r.x == self.x - o.x,
            r.y == self.y - o.y,
            r.z == self.z - o.z,
    {
        Vec3 { x: self.x - o.x, y: self.y - o.y, z: self.z - o.z }
    }

    pub fn neg(&self) -> (r: Vec3)
        requires
            in_range(*self, 0x7fffffffffffffff),
        ensures
            r.x == -self.x,
            r.y == -self.y,
            r.z == -self.z,
    {
        Vec3 { x: -self.x, y: -self.y, z: -self.z }
    }

    /// Scale each component by the fixed-point scalar `s`.
    pub fn times(&self, s: i64) -> (r: Vec3)
        requires
            -0x4000000000000000 <= (self.x as int) * (s as int) <= 0x4000000000000000,
            -0x4000000000000000 <= (self.y as int) * (s as int) <= 0x4000000000000000,
            -0x4000000000000000 <= (self.z as int) * (s as int) <= 0x4000000000000000,
        ensures
            r.x == fx_mul_s(self.x as int, s as int),
            r.y == fx_mul_s(self.y as int, s as int),
            r.z == fx_mul_s(self.z as int, s as int),
    {
        Vec3 { x: fx_mul(self.x, s), y: fx_mul(self.y, s), z: fx_mul(self.z, s) }
    }

    pub fn dot(&self, o: &Vec3) -> (r: i64)
        requires
            in_range(*self, VEC_LIMIT as int),
            in_range(*o, VEC_LIMIT as int),
        ensures
            r == dot_v(*self, *o),
    {
        proof {
            assert(-0x4000000000000000 <= (self.x as int) * (o.x as int) <= 0x4000000000000000)
                by (nonlinear_arith)
                requires
                    in_range(*self, VEC_LIMIT as int),
                    in_range(*o, VEC_LIMIT as int),
            ;
            assert(-0x4000000000000000 <= (self.y as int) * (o.y as int) <= 0x4000000000000000)
                by (nonlinear_arith)
                requires
                    in_range(*self, VEC_LIMIT as int),
                    in_range(*o, VEC_LIMIT as int),
            ;
            assert(-0x4000000000000000 <= (self.z as int) * (o.z as int) <= 0x4000000000000000)
                by (nonlinear_arith)
                requires
                    in_range(*self, VEC_LIMIT as int),
                    in_range(*o, VEC_LIMIT as int),
            ;
        }
        let p: i128 = (self.x as i128) * (o.x as i128) + (self.y as i128) * (o.y as i128)
            + (self.z as i128) * (o.z as i128);
        let q: i128 = div_mag(p, 65536);
        proof {
            assert(-0x7fffffffffffffff <= q <= 0x7fffffffffffffff) by (nonlinear_arith)
                requires
                    q == dtz(p as int, 65536),
                    -0xc000000000000000 <= p as int <= 0xc000000000000000,
            ;
        }
        q as i64
    }

    pub fn cross(&self, o: &Vec3) -> (r: Vec3)
        requires
            in_range(*self, 0x7fffffff),
            in_range(*o, 0x7fffffff),
        ensures
            r.x == fx_mul_s(self.y as int, o.z as int) - fx_mul_s(self.z as int, o.y as int),
            r.y == fx_mul_s(self.z as int, o.x as int) - fx_mul_s(self.x as int, o.z as int),
            r.z == fx_mul_s(self.x as int, o.y as int) - fx_mul_s(self.y as int, o.x as int),
    {
        proof {
            lemma_mul_within(self.y as int, o.z as int);
            lemma_mul_within(self.z as int, o.y as int);
            lemma_mul_within(self.z as int, o.x as int);
            lemma_mul_within(self.x as int, o.z as int);
            lemma_mul_within(self.x as int, o.y as int);
            lemma_mul_within(self.y as int, o.x as int);
        }
        let rx: i64 = fx_mul(self.y, o.z) - fx_mul(self.z, o.y);
        let ry: i64 = fx_mul(self.z, o.x) - fx_mul(self.x, o.z);
        let rz: i64 = fx_mul(self.x, o.y) - fx_mul(self.y, o.x);
        Vec3 { x: rx, y: ry, z: rz }
    }

    /// Squared length at the squared scale.
    pub fn length_squared(&self) -> (r: i64)
        requires
            in_range(*self, VEC_LIMIT as int),
        ensures
            r == lsq_v(*self),
            r >= 0,
    {
        proof {
            assert(0 <= (self.x as int) * (self.x as int) <= 0x1000000000000000)
                by (nonlinear_arith)
                requires
                    in_range(*self, VEC_LIMIT as int),
            ;
            assert(0 <= (self.y as int) * (self.y as int) <= 0x1000000000000000)
                by (nonlinear_arith)
                requires
                    in_range(*self, VEC_LIMIT as int),
            ;
            assert(0 <= (self.z as int) * (self.z as int) <= 0x1000000000000000)
                by (nonlinear_arith)
                requires
                    in_range(*self, VEC_LIMIT as int),
            ;
        }
        self.x * self.x + self.y * self.y + self.z * self.z
    }

    /// Length at the scalar scale.
    pub fn length(&self) -> (r: i64)
        requires
            in_range(*self, VEC_LIMIT as int),
        ensures
            r == len_v(*self),
            is_sqrt(lsq_v(*self), r as int),
            0 <= r <= 3037000499,
    {
        let ls: i64 = self.length_squared();
        let r: u64 = isqrt(ls as u64);
        proof {
            assert((r as int) <= 3037000499) by (nonlinear_arith)
                requires
                    is_sqrt(ls as int, r as int),
                    ls as int <= 0x7fffffffffffffff,
            ;
        }
        r as i64
    }

    /// Scale to unit length; each resulting component lies in `[-1, 1]`.
    pub fn normalize(&self) -> (r: Vec3)
        requires
            in_range(*self, VEC_LIMIT as int),
            lsq_v(*self) >= 1,
        ensures
            r.x == fx_div_s(self.x as int, len_v(*self)),
            r.y == fx_div_s(self.y as int, len_v(*self)),
            r.z == fx_div_s(self.z as int, len_v(*self)),
            in_range(r, SCALE as int),
            lsq_v(*self) >= 268435456 ==> 65536 * 65536 - 393218 <= lsq_v(r) <= 65536 * 65536
                + 524304,
    {
        let len: i64 = self.length();
        proof {
            assert(len >= 1) by (nonlinear_arith)
                requires
                    is_sqrt(lsq_v(*self), len as int),
                    lsq_v(*self) >= 1,
            ;
            lemma_components_le_len(self.x as int, self.y as int, self.z as int, len as int);
            lemma_div_unit(self.x as int, len as int);
            lemma_div_unit(self.y as int, len as int);
        }
        let out = Vec3 { x: fx_div(self.x, len), y: fx_div(self.y, len), z: fx_div(self.z, len) };
        proof {
            lemma_div_unit(self.z as int, len as int);
            if lsq_v(*self) >= 268435456 {
                assert(len >= 16384) by (nonlinear_arith)
                    requires
                        is_sqrt(lsq_v(*self), len as int),
                        lsq_v(*self) >= 268435456,
                ;
                lemma_normalize_near_unit(
                    self.x as int,
                    self.y as int,
                    self.z as int,
                    len as int,
                    out.x as int,
                    out.y as int,
                    out.z as int,
                );
            }
        }
        out
    }
}

/// Products of components within `2^31` stay within the scaling window.
proof fn lemma_mul_within(a: int, b: int)
    requires
        -0x7fffffff <= a <= 0x7fffffff,
        -0x7fffffff <= b <= 0x7fffffff,
    ensures
        -0x4000000000000000 <= a * b <= 0x4000000000000000,
        -0x4000000000000000 <= fx_mul_s(a, b) <= 0x4000000000000000,
{
    assert(-0x4000000000000000 <= a * b <= 0x4000000000000000) by (nonlinear_arith)
        requires
            -0x7fffffff <= a <= 0x7fffffff,
            -0x7fffffff <= b <= 0x7fffffff,
    ;
    assert(-0x4000000000000000 <= dtz(a * b, 65536) <= 0x4000000000000000) by (nonlinear_arith)
        requires
            -0x4000000000000000 <= a * b <= 0x4000000000000000,
    ;
}

/// No component exceeds the whole vector's length in magnitude.
proof fn lemma_components_le_len(x: int, y: int, z: int, len: int)
    requires
        is_sqrt(x * x + y * y + z * z, len),
    ensures
        -len <= x <= len,
        -len <= y <= len,
        -len <= z <= len,
{
    assert(-len <= x <= len && -len <= y <= len && -len <= z <= len) by (nonlinear_arith)
        requires
            0 <= len,
            x * x + y * y + z * z < (len + 1) * (len + 1),
    ;
}

/// Truncated division brackets: the quotient times the divisor does not
/// exceed the dividend in magnitude, and misses it by less than one
/// divisor.
proof fn lemma_trunc_div_band(e: int, d: int, q: int, aq: int)
    requires
        1 <= d,
        q == dtz(e, d),
        aq == if q >= 0 { q } else { -q },
    ensures
        (d * aq) * (d * aq) <= e * e,
        e * e < (d * d) * (q * q + 2 * aq + 1),
        0 <= aq,
{
    if e >= 0 {
        vstd::arithmetic::div_mod::lemma_fundamental_div_mod(e, d);
        vstd::arithmetic::div_mod::lemma_mod_division_less_than_divisor(e, d);
        assert((d * aq) * (d * aq) <= e * e && e * e < (d * d) * (q * q + 2 * aq + 1))
            by (nonlinear_arith)
            requires
                1 <= d,
                e == d * q + (e % d),
                0 <= e % d < d,
                0 <= e,
                aq == q,
        ;
    } else {
        let m = -e;
        vstd::arithmetic::div_mod::lemma_fundamental_div_mod(m, d);
        vstd::arithmetic::div_mod::lemma_mod_division_less_than_divisor(m, d);
        assert((d * aq) * (d * aq) <= e * e && e * e < (d * d) * (q * q + 2 * aq + 1))
            by (nonlinear_arith)
            requires
                1 <= d,
                m == d * (m / d) + (m % d),
                0 <= m % d < d,
                0 < m,
                e == -m,
                q == -(m / d),
                aq == m / d,
        ;
    }
}

/// A vector no shorter than a quarter unit normalizes to the unit sphere
/// up to the scalar grid: its squared length lands in a fixed band
/// around one.
#[verifier::rlimit(100)]
proof fn lemma_normalize_near_unit(x: int, y: int, z: int, len: int, qx: int, qy: int, qz: int)
    requires
        16384 <= len,
        len * len <= x * x + y * y + z * z < (len + 1) * (len + 1),
        qx == dtz(x * 65536, len),
        qy == dtz(y * 65536, len),
        qz == dtz(z * 65536, len),
        -65536 <= qx <= 65536,
        -65536 <= qy <= 65536,
        -65536 <= qz <= 65536,
    ensures
        65536 * 65536 - 393218 <= qx * qx + qy * qy + qz * qz <= 65536 * 65536 + 524304,
{
    let ax = if qx >= 0 { qx } else { -qx };
    let ay = if qy >= 0 { qy } else { -qy };
    let az = if qz >= 0 { qz } else { -qz };
    lemma_trunc_div_band(x * 65536, len, qx, ax);
    lemma_trunc_div_band(y * 65536, len, qy, ay);
    lemma_trunc_div_band(z * 65536, len, qz, az);
    let lsq = x * x + y * y + z * z;
    let q2 = qx * qx + qy * qy + qz * qz;
    assert(0 <= q2) by (nonlinear_arith)
        requires
            q2 == qx * qx + qy * qy + qz * qz,
    ;
    assert((len * len) * (qx * qx) <= (x * x) * (65536 * 65536)) by (nonlinear_arith)
        requires
            (len * ax) * (len * ax) <= (x * 65536) * (x * 65536),
            ax == if qx >= 0 { qx } else { -qx },
    ;
    assert((len * len) * (qy * qy) <= (y * y) * (65536 * 65536)) by (nonlinear_arith)
        requires
            (len * ay) * (len * ay) <= (y * 65536) * (y * 65536),
            ay == if qy >= 0 { qy } else { -qy },
    ;
    assert((len * len) * (qz * qz) <= (z * z) * (65536 * 65536)) by (nonlinear_arith)
        requires
            (len * az) * (len * az) <= (z * 65536) * (z * 65536),
            az == if qz >= 0 { qz } else { -qz },
    ;
    assert((len * len) * q2 <= lsq * (65536 * 65536)) by (nonlinear_arith)
        requires
            (len * len) * (qx * qx) <= (x * x) * (65536 * 65536),
            (len * len) * (qy * qy) <= (y * y) * (65536 * 65536),
            (len * len) * (qz * qz) <= (z * z) * (65536 * 65536),
            q2 == qx * qx + qy * qy + qz * qz,
            lsq == x * x + y * y + z * z,
    ;
    assert(q2 <= 65536 * 65536 + 524304) by (nonlinear_arith)
        requires
            (len * len) * q2 <= lsq * (65536 * 65536),
            lsq <= (len + 1) * (len + 1) - 1,
            16384 <= len,
            0 <= q2,
    ;
    assert((x * x) * (65536 * 65536) < (len * len) * (qx * qx + 2 * ax + 1)) by (nonlinear_arith)
        requires
            (x * 65536) * (x * 65536) < (len * len) * (qx * qx + 2 * ax + 1),
    ;
    assert((y * y) * (65536 * 65536) < (len * len) * (qy * qy + 2 * ay + 1)) by (nonlinear_arith)
        requires
            (y * 65536) * (y * 65536) < (len * len) * (qy * qy + 2 * ay + 1),
    ;
    assert((z * z) * (65536 * 65536) < (len * len) * (qz * qz + 2 * az + 1)) by (nonlinear_arith)
        requires
            (z * 65536) * (z * 65536) < (len * len) * (qz * qz + 2 * az + 1),
    ;
    assert(lsq * (65536 * 65536) < (len * len) * (q2 + 2 * (ax + ay + az) + 3)) by (nonlinear_arith)
        requires
            (x * x) * (65536 * 65536) < (len * len) * (qx * qx + 2 * ax + 1),
            (y * y) * (65536 * 65536) < (len * len) * (qy * qy + 2 * ay + 1),
            (z * z) * (65536 * 65536) < (len * len) * (qz * qz + 2 * az + 1),
            q2 == qx * qx + qy * qy + qz * qz,
            lsq == x * x + y * y + z * z,
    ;
    assert(65536 * 65536 - 393218 <= q2) by (nonlinear_arith)
        requires
            lsq * (65536 * 65536) < (len * len) * (q2 + 2 * (ax + ay + az) + 3),
            len * len <= lsq,
            0 <= ax <= 65536,
            0 <= ay <= 65536,
            0 <= az <= 65536,
            16384 <= len,
    ;
}

/// Dividing a component by a length at least as large keeps it in `[-1, 1]`.
proof fn lemma_div_unit(x: int, len: int)
    requires
        1 <= len,
        -len <= x <= len,
    ensures
        -(SCALE as int) <= fx_div_s(x, len) <= SCALE as int,
{
    assert(-65536 <= dtz(x * 65536, len) <= 65536) by (nonlinear_arith)
        requires
            1 <= len,
            -len <= x <= len,
    ;
}

} // verus!

//! Fixed-point scalars.
//!
//! Every real-valued quantity of the renderer (coordinates, distances,
//! reflectances, radiance) is an `i64` counting steps of `1 / SCALE`.
//! The operations here round toward zero and each carries an exact
//! integer contract.

use vstd::prelude::*;

verus! {

/// One whole unit: the fixed-point encoding of 1.0.
pub const SCALE: i64 = 65536;

/// The cosine-hemisphere sampling density `1/(2*pi)`, rounded down to
/// fixed point: `floor(SCALE / (2*pi))`.
pub const INV_TWO_PI: i64 = 10430;

/// Bound on scene and camera coordinates, radii and ray travel
/// (2048 whole units): keeps every squared length within `i64`.
pub const COORD_LIMIT: i64 = 134217728;

/// Bound on path origins during tracing.
pub const TRACE_LIMIT: i64 = 268435456;

/// Bound on points handed to distance evaluation.
pub const POINT_LIMIT: i64 = 536870912;

/// Bound on vector components fed to dot products and lengths.
pub const VEC_LIMIT: i64 = 1073741824;

/// Largest emission value a material may carry.
pub const EMISSION_LIMIT: i64 = 134217728;

/// Largest number of bounces a path may be configured with.
pub const PATH_LIMIT: usize = 65536;

/// Largest radiance value a single path can reduce to:
/// `PATH_LIMIT * EMISSION_LIMIT`.
pub const LIGHT_LIMIT: i64 = 8796093022208;

/// Every scalar of the sequence lies in the unit interval `[0, 1]`.
pub open spec fn vals_in_unit(s: Seq<i64>) -> bool {
    forall|i: int| 0 <= i < s.len() ==> 0 <= #[trigger] s[i] <= SCALE
}

/// Division rounding toward zero, the rule used by every scalar
/// operation in this library.
pub open spec fn dtz(p: int, d: int) -> int {
    if p >= 0 {
        p / d
    } else {
        -((-p) / d)
    }
}

/// The fixed-point product: `a * b` rescaled by `SCALE`.
pub open spec fn fx_mul_s(a: int, b: int) -> int {
    dtz(a * b, SCALE as int)
}

/// The fixed-point quotient: `a / b` rescaled by `SCALE`.
pub open spec fn fx_div_s(a: int, b: int) -> int {
    dtz(a * (SCALE as int), b)
}

/// `r` is the integer square root of `x`.
pub open spec fn is_sqrt(x: int, r: int) -> bool {
    0 <= r && r * r <= x && x < (r + 1) * (r + 1)
}

/// The integer square root as a spec-level function.
pub open spec fn sqrt_s(x: int) -> int {
    choose|r: int| is_sqrt(x, r)
}

/// The integer square root is unique, so `sqrt_s` agrees with any witness.
pub proof fn lemma_sqrt_s_is(x: int, r: int)
    requires
        is_sqrt(x, r),
    ensures
        sqrt_s(x) == r,
{
    assert(is_sqrt(x, sqrt_s(x))) by {
        assert(exists|q: int| is_sqrt(x, q));
    }
    let r2 = sqrt_s(x);
    assert(r == r2) by (nonlinear_arith)
        requires
            is_sqrt(x, r),
            is_sqrt(x, r2),
    ;
}

/// Magnitude division on wide integers, rounding toward zero.
pub(crate) fn div_mag(p: i128, d: i128) -> (r: i128)
    requires
        1 <= d,
        i128::MIN < p,
    ensures
        r == dtz(p as int, d as int),
{
    if p >= 0 {
        let q: u128 = (p as u128) / (d as u128);
        assert(q <= p as u128) by (nonlinear_arith)
            requires
                q == (p as u128) / (d as u128),
                1 <= d as u128,
        ;
        q as i128
    } else {
        let m: u128 = (-p) as u128;
        let q: u128 = m / (d as u128);
        assert(q <= m) by (nonlinear_arith)
            requires
                q == m / (d as u128),
                1 <= d as u128,
        ;
        -(q as i128)
    }
}

/// Fixed-point multiplication, exact to the rounding rule.
pub fn fx_mul(a: i64, b: i64) -> (r: i64)
    requires
        -0x4000000000000000 <= a * b <= 0x4000000000000000,
    ensures
        r == fx_mul_s(a as int, b as int),
{
    let p: i128 = (a as i128) * (b as i128);
    let q: i128 = div_mag(p, 65536);
    proof {
        assert(-0x4000000000000000 <= q <= 0x4000000000000000) by (nonlinear_arith)
            requires
                q == dtz(p as int, 65536),
                -0x4000000000000000 <= p as int <= 0x4000000000000000,
        ;
    }
    q as i64
}

/// Fixed-point division by a positive scalar, exact to the rounding rule.
pub fn fx_div(a: i64, b: i64) -> (r: i64)
    requires
        1 <= b,
        -70368744177664 <= a <= 70368744177664,
    ensures
        r == fx_div_s(a as int, b as int),
{
    let p: i128 = (a as i128) * 65536;
    let q: i128 = div_mag(p, b as i128);
    proof {
        assert(-0x4000000000000000 <= q <= 0x4000000000000000) by (nonlinear_arith)
            requires
                q == dtz(p as int, b as int),
                1 <= b as int,
                -0x4000000000000000 <= p as int <= 0x4000000000000000,
        ;
    }
    q as i64
}

/// Half of a scalar, rounding toward zero.
pub fn fx_half(a: i64) -> (r: i64)
    ensures
        r == dtz(a as int, 2),
{
    let q: i128 = div_mag(a as i128, 2);
    q as i64
}

/// Integer square root by bisection.
pub fn isqrt(x: u64) -> (r: u64)
    ensures
        is_sqrt(x as int, r as int),
        r == sqrt_s(x as int),
{
    let mut lo: u64 = 0;
    let mut hi: u64 = 4294967296;
    assert((x as int) < 4294967296 * 4294967296) by (nonlinear_arith)
        requires
            x as int <= 0xffffffffffffffff,
    ;
    while lo + 1 < hi
        invariant
            0 <= lo < hi <= 4294967296,
            (lo as int) * (lo as int) <= x as int,
            (x as int) < (hi as int) * (hi as int),
        decreases hi - lo,
    {
        let mid: u64 = lo + (hi - lo) / 2;
        assert(mid < hi && lo < mid);
        assert((mid as int) * (mid as int) <= 0xffffffffffffffff) by (nonlinear_arith)
            requires
                mid as int <= 4294967295,
        ;
        if mid * mid <= x {
            lo = mid;
        } else {
            hi = mid;
        }
    }
    assert(hi == lo + 1);
    assert(is_sqrt(x as int, lo as int));
    proof {
        lemma_sqrt_s_is(x as int, lo as int);
    }
    lo
}

/// Square root of a scalar in `[0, 1]`, staying in `[0, 1]`.
pub fn fx_sqrt01(x: i64) -> (r: i64)
    requires
        0 <= x <= SCALE,
    ensures
        r == sqrt_s(x * SCALE),
        0 <= r <= SCALE,
        x == SCALE ==> r == SCALE,
        x == 0 ==> r == 0,
{
    let w: u64 = (x as u64) * 65536;
    let r: u64 = isqrt(w);
    proof {
        assert(r as int <= 65536) by (nonlinear_arith)
            requires
                is_sqrt(w as int, r as int),
                w as int <= 65536 * 65536,
        ;
        if x == SCALE {
            assert(is_sqrt(65536int * 65536, 65536int)) by (nonlinear_arith);
            lemma_sqrt_s_is(65536int * 65536, 65536int);
        }
        if x == 0 {
            assert(is_sqrt(0int, 0int)) by (nonlinear_arith);
            lemma_sqrt_s_is(0int, 0int);
        }
    }
    r as i64
}

/// Magnitude bound of a rescaled product from magnitude bounds of its
/// factors.
pub proof fn lemma_fx_mul_abs(a: int, b: int, m: int, n: int)
    requires
        -m <= a <= m,
        -n <= b <= n,
        0 <= m,
        0 <= n,
    ensures
        -(m * n) <= a * b <= m * n,
        -((m * n) / (SCALE as int)) <= fx_mul_s(a, b) <= (m * n) / (SCALE as int),
{
    assert(-(m * n) <= a * b <= m * n) by (nonlinear_arith)
        requires
            -m <= a <= m,
            -n <= b <= n,
            0 <= m,
            0 <= n,
    ;
    assert(-((m * n) / 65536) <= dtz(a * b, 65536) <= (m * n) / 65536) by (nonlinear_arith)
        requires
            -(m * n) <= a * b <= m * n,
            0 <= m * n,
    ;
}

/// A product of scalars in `[0, 1]` stays in `[0, 1]` and below each factor.
pub proof fn lemma_fx_mul_unit(a: int, b: int)
    requires
        0 <= a,
        0 <= b <= SCALE,
    ensures
        0 <= fx_mul_s(a, b) <= a,
{
    assert(0 <= (a * b) / (SCALE as int) <= a) by (nonlinear_arith)
        requires
            0 <= a,
            0 <= b <= SCALE,
    ;
}

/// Clamping into the unit interval, as a value.
pub open spec fn clamp01_s(x: int) -> int {
    if x < 0 {
        0
    } else if x > SCALE {
        SCALE as int
    } else {
        x
    }
}

/// Clamp a scalar into `[0, 1]`.
pub fn fx_clamp01(x: i64) -> (r: i64)
    ensures
        r == clamp01_s(x as int),
        0 <= r <= SCALE,
{
    if x < 0 {
        0
    } else if x > SCALE {
        SCALE
    } else {
        x
    }
}

/// `base` to a whole power, by repeated rescaled products.
pub open spec fn fx_powi_s(base: int, n: nat) -> int
    decreases n,
{
    if n == 0 {
        SCALE as int
    } else {
        fx_mul_s(fx_powi_s(base, (n - 1) as nat), base)
    }
}

/// The fractional-exponent digits: one nested square root per binary
/// digit of `frac`, multiplying `acc` where the digit is set.
pub open spec fn pow_frac_s(root: int, frac: u64, mask: u64, acc: int) -> int
    decreases mask,
{
    if mask == 0 {
        acc
    } else {
        let root2 = sqrt_s(root * (SCALE as int));
        let acc2 = if frac & mask != 0 {
            fx_mul_s(acc, root2)
        } else {
            acc
        };
        pow_frac_s(root2, frac, (mask / 2) as u64, acc2)
    }
}

/// The exact value of the power function, mirroring its evaluation:
/// the endpoint identities, then the exponent's whole part by repeated
/// products and its fractional part by the square-root digit chain.
pub open spec fn fx_pow_s(base: int, exponent: int) -> int {
    if exponent == 0 {
        SCALE as int
    } else if base == SCALE {
        SCALE as int
    } else if base == 0 {
        0
    } else if exponent == SCALE {
        base
    } else {
        pow_frac_s(
            base,
            (exponent % 65536) as u64,
            32768u64,
            fx_powi_s(base, (exponent / 65536) as nat),
        )
    }
}

/// `base` raised to a non-negative fixed-point `exponent`, for
/// `base` in `[0, 1]`.
///
/// The integer part of the exponent is applied by repeated products and
/// the fractional part through the binary digits of the exponent, each
/// digit contributing one nested square root. The result stays in
/// `[0, 1]`; the endpoint identities are exact.
pub fn fx_pow(base: i64, exponent: i64) -> (r: i64)
    requires
        0 <= base <= SCALE,
        0 <= exponent <= VEC_LIMIT,
    ensures
        r == fx_pow_s(base as int, exponent as int),
        0 <= r <= SCALE,
        exponent == 0 ==> r == SCALE,
        base == SCALE ==> r == SCALE,
        base == 0 && exponent >= 1 ==> r == 0,
        exponent == SCALE ==> r == base,
{
    if exponent == 0 {
        return SCALE;
    }
    if base == SCALE {
        return SCALE;
    }
    if base == 0 {
        return 0;
    }
    if exponent == SCALE {
        return base;
    }
    let whole: u64 = (exponent as u64) / 65536;
    let frac: u64 = (exponent as u64) % 65536;
    proof {
        assert(whole as int == (exponent as int) / 65536 && frac as int == (exponent as int)
            % 65536) by (nonlinear_arith)
            requires
                0 <= exponent,
                whole as int == ((exponent as u64) / 65536) as int,
                frac as int == ((exponent as u64) % 65536) as int,
                exponent as u64 == exponent as int,
        ;
    }
    let mut result: i64 = SCALE;
    let mut i: u64 = 0;
    while i < whole
        invariant
            0 <= result <= SCALE,
            0 <= base <= SCALE,
            i <= whole,
            result == fx_powi_s(base as int, i as nat),
        decreases whole - i,
    {
        proof {
            lemma_fx_mul_unit(result as int, base as int);
            assert(fx_powi_s(base as int, (i + 1) as nat) == fx_mul_s(
                fx_powi_s(base as int, i as nat),
                base as int,
            ));
        }
        result = fx_mul(result, base);
        i = i + 1;
    }
    let mut root: i64 = base;
    let mut mask: u64 = 32768;
    while mask >= 1
        invariant
            0 <= result <= SCALE,
            0 <= root <= SCALE,
            pow_frac_s(root as int, frac, mask, result as int) == fx_pow_s(
                base as int,
                exponent as int,
            ),
        decreases mask,
    {
        root = fx_sqrt01(root);
        if frac & mask != 0 {
            proof {
                lemma_fx_mul_unit(result as int, root as int);
            }
            result = fx_mul(result, root);
        }
        mask = mask / 2;
    }
    result
}

} // verus!

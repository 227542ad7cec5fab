//! Fixed-point scalars.
//!
//! Every coordinate, angle, colour channel and progress fraction of the
//! engine is an `i64` counting millionths: the real number `1.0` is
//! [`ONE`]. Products are formed exactly in 128-bit integers, rounded
//! towards zero once, and saturated to the `i64` range.
use vstd::prelude::*;

verus! {

/// The scalar `1.0`.
pub const ONE: i64 = 1_000_000;

/// The scalar `0.5`.
pub const HALF: i64 = 500_000;

/// Half a turn in radians, rounded to the nearest millionth.
pub const PI: i64 = 3_141_593;

/// A full turn in radians: exactly twice [`PI`].
pub const TWO_PI: i64 = 6_283_186;

/// Quotient of `n` by a positive `d`, rounded towards zero.
pub open spec fn trunc_div(n: int, d: int) -> int {
    if n >= 0 {
        n / d
    } else {
        -((-n) / d)
    }
}

/// `v` limited to the range of `i64`.
pub open spec fn saturate(v: int) -> int {
    if v < i64::MIN {
        i64::MIN as int
    } else if v > i64::MAX {
        i64::MAX as int
    } else {
        v
    }
}

/// `v` limited to the closed interval from `lo` to `hi`.
pub open spec fn clamp_spec(v: int, lo: int, hi: int) -> int {
    if v < lo {
        lo
    } else if v > hi {
        hi
    } else {
        v
    }
}

/// The fixed-point product of two scalars.
pub open spec fn mul_spec(a: int, b: int) -> int {
    saturate(trunc_div(a * b, ONE as int))
}

/// The fixed-point quotient `n / d` of two scalars, for `d != 0`.
pub open spec fn div_spec(n: int, d: int) -> int {
    if d > 0 {
        saturate(trunc_div(n * ONE, d))
    } else {
        saturate(trunc_div(-(n * ONE), -d))
    }
}

/// The point a fraction `t` of the way from `a` to `b`.
pub open spec fn lerp_spec(a: int, b: int, t: int) -> int {
    saturate(a + trunc_div((b - a) * t, ONE as int))
}

/// The angle congruent to `d` modulo a full turn that lies in the
/// half-open interval `(-PI, PI]`.
pub open spec fn wrap_angle_spec(d: int) -> int {
    PI - (PI - d) % (TWO_PI as int)
}

/// The angle a fraction `t` of the way from `a` to `b` along the shorter arc.
pub open spec fn lerp_angle_spec(a: int, b: int, t: int) -> int {
    saturate(a + trunc_div(wrap_angle_spec(b - a) * t, ONE as int))
}

/// The progress fraction `elapsed / span` as a scalar.
pub open spec fn fraction_spec(elapsed: int, span: int) -> int {
    (elapsed * ONE) / span
}

/// The product of the difference of two scalars and a scalar fits in 128
/// bits.
pub proof fn lemma_product_fits(a: int, b: int)
    by (nonlinear_arith)
    requires
        -0x1_0000_0000_0000_0000 < a < 0x1_0000_0000_0000_0000,
        -0x8000_0000_0000_0000 <= b <= 0x8000_0000_0000_0000,
    ensures
        -0x7fff_ffff_ffff_ffff_8000_0000_0000_0000 <= a * b
            <= 0x7fff_ffff_ffff_ffff_8000_0000_0000_0000,
{
}

/// Limits a 128-bit value to the range of `i64`.
pub fn saturate_i128(v: i128) -> (r: i64)
    ensures
        r == saturate(v as int),
{
    if v < i64::MIN as i128 {
        i64::MIN
    } else if v > i64::MAX as i128 {
        i64::MAX
    } else {
        v as i64
    }
}

/// Limits `v` to the closed interval from `lo` to `hi`.
pub fn clamp(v: i64, lo: i64, hi: i64) -> (r: i64)
    ensures
        r == clamp_spec(v as int, lo as int, hi as int),
{
    if v < lo {
        lo
    } else if v > hi {
        hi
    } else {
        v
    }
}

/// Multiplies two scalars.
pub fn mul_fixed(a: i64, b: i64) -> (r: i64)
    ensures
        r == mul_spec(a as int, b as int),
{
    proof {
        lemma_product_fits(a as int, b as int);
    }
    let product: i128 = (a as i128) * (b as i128);
    saturate_i128(product / (ONE as i128))
}

/// Divides the scalar `n` by the non-zero scalar `d`.
pub fn div_fixed(n: i64, d: i64) -> (r: i64)
    requires
        d != 0,
    ensures
        r == div_spec(n as int, d as int),
{
    proof {
        lemma_product_fits(n as int, ONE as int);
    }
    let scaled: i128 = (n as i128) * (ONE as i128);
    if d > 0 {
        saturate_i128(scaled / (d as i128))
    } else {
        saturate_i128((-scaled) / (-(d as i128)))
    }
}

/// Interpolates linearly from `a` (at `t == 0`) to `b` (at `t == ONE`).
pub fn lerp(a: i64, b: i64, t: i64) -> (r: i64)
    ensures
        r == lerp_spec(a as int, b as int, t as int),
{
    let delta: i128 = (b as i128) - (a as i128);
    proof {
        lemma_product_fits(delta as int, t as int);
    }
    let travelled: i128 = (delta * (t as i128)) / (ONE as i128);
    saturate_i128((a as i128) + travelled)
}

/// Brings the angle difference `d` into `(-PI, PI]` by whole turns.
pub fn wrap_angle(d: i128) -> (r: i64)
    ensures
        r == wrap_angle_spec(d as int),
        -PI < r <= PI,
{
    let turn: i128 = TWO_PI as i128;
    let within: i128 = d % turn;
    let shifted: i128 = (PI as i128) - within;
    let rem: i128 = shifted % turn;
    let m: i128 = if rem < 0 {
        rem + turn
    } else {
        rem
    };
    proof {
        let q = (d as int - within as int) / (turn as int);
        assert(d as int - within as int == q * turn) by {
            assert((d as int - within as int) % (turn as int) == 0);
        }
        assert(PI - d == (-q) * turn + (PI - within));
        vstd::arithmetic::div_mod::lemma_mod_multiples_vanish(-q, PI - within, turn as int);
    }
    ((PI as i128) - m) as i64
}

/// Interpolates an angle along the shorter arc: the difference `b - a` is
/// first brought into `(-PI, PI]`, then scaled by `t`.
pub fn lerp_angle(a: i64, b: i64, t: i64) -> (r: i64)
    ensures
        r == lerp_angle_spec(a as int, b as int, t as int),
{
    let diff: i64 = wrap_angle((b as i128) - (a as i128));
    proof {
        lemma_product_fits(diff as int, t as int);
    }
    let travelled: i128 = ((diff as i128) * (t as i128)) / (ONE as i128);
    saturate_i128((a as i128) + travelled)
}

/// The fraction `elapsed / span` of a frame interval as a scalar.
pub fn fraction(elapsed: u32, span: u32) -> (r: i64)
    requires
        span > 0,
    ensures
        r == fraction_spec(elapsed as int, span as int),
        elapsed <= span ==> 0 <= r <= ONE,
{
    let scaled: u64 = (elapsed as u64) * (ONE as u64);
    proof {
        assert(elapsed <= span ==> (elapsed * ONE) / (span as int) <= ONE) by (nonlinear_arith)
            requires
                span > 0,
                elapsed >= 0,
        ;
    }
    (scaled / (span as u64)) as i64
}

/// Interpolation is exact at both ends: progress zero gives `a`, progress
/// `ONE` gives `b`.
pub proof fn lemma_lerp_endpoints(a: i64, b: i64)
    ensures
        lerp_spec(a as int, b as int, 0) == a,
        lerp_spec(a as int, b as int, ONE as int) == b,
{
    assert((b - a) * 0 == 0) by (nonlinear_arith);
    let d = b - a;
    assert(d * ONE / (ONE as int) == d && (-(d * ONE)) / (ONE as int) == -d) by (nonlinear_arith);
}

/// Between its ends interpolation stays between `a` and `b`.
pub proof fn lemma_lerp_between(a: i64, b: i64, t: int)
    requires
        0 <= t <= ONE,
    ensures
        a <= b ==> a <= lerp_spec(a as int, b as int, t) <= b,
        b <= a ==> b <= lerp_spec(a as int, b as int, t) <= a,
{
    let d = b - a;
    if d >= 0 {
        assert(0 <= d * t <= d * ONE) by (nonlinear_arith)
            requires
                d >= 0,
                0 <= t <= ONE,
        ;
        assert(d * ONE / (ONE as int) == d) by (nonlinear_arith);
    } else {
        assert(0 <= -(d * t) <= (-d) * ONE && d * t <= 0) by (nonlinear_arith)
            requires
                d < 0,
                0 <= t <= ONE,
        ;
        assert((-d) * ONE / (ONE as int) == -d) by (nonlinear_arith);
    }
}

/// A wrapped angle lies in `(-PI, PI]` and differs from the angle it came
/// from by whole turns.
pub proof fn lemma_wrap_angle(d: int)
    ensures
        -PI < wrap_angle_spec(d) <= PI,
        (d - wrap_angle_spec(d)) % (TWO_PI as int) == 0,
        -PI < d <= PI ==> wrap_angle_spec(d) == d,
{
    let m = (PI - d) % (TWO_PI as int);
    let q = (PI - d) / (TWO_PI as int);
    assert(PI - d == q * TWO_PI + m);
    assert(d - (PI - m) == (-q) * TWO_PI);
    assert(((-q) * TWO_PI) % (TWO_PI as int) == 0) by (nonlinear_arith);
}

/// Shortest-arc interpolation never turns by more than half a turn: at
/// progress `t` in `[0, ONE]` the result is within `PI` of `a`, as far as
/// the range of scalars reaches.
pub proof fn lemma_lerp_angle_shortest_arc(a: i64, b: i64, t: int)
    requires
        0 <= t <= ONE,
    ensures
        saturate(a - PI) <= lerp_angle_spec(a as int, b as int, t) <= saturate(a + PI),
{
    lemma_wrap_angle(b - a);
    let w = wrap_angle_spec(b - a);
    if w >= 0 {
        assert(0 <= w * t <= w * ONE) by (nonlinear_arith)
            requires
                w >= 0,
                0 <= t <= ONE,
        ;
    } else {
        assert(0 <= -(w * t) <= (-w) * ONE && w * t <= 0) by (nonlinear_arith)
            requires
                w < 0,
                0 <= t <= ONE,
        ;
    }
}

/// Shortest-arc interpolation starts at `a` and ends at the angle that
/// lies within half a turn of `a` and is `b` up to whole turns.
pub proof fn lemma_lerp_angle_endpoints(a: i64, b: i64)
    ensures
        lerp_angle_spec(a as int, b as int, 0) == a,
        lerp_angle_spec(a as int, b as int, ONE as int) == saturate(a + wrap_angle_spec(b - a)),
        (b - (a + wrap_angle_spec(b - a))) % (TWO_PI as int) == 0,
{
    lemma_wrap_angle(b - a);
    let w = wrap_angle_spec(b - a);
    assert(w * 0 == 0) by (nonlinear_arith);
    assert(w * ONE / (ONE as int) == w && (-(w * ONE)) / (ONE as int) == -w) by (nonlinear_arith);
}

} // verus!

//! Easing: the map from linear progress to eased progress.
use vstd::prelude::*;
use crate::fixed::{clamp_spec, saturate, saturate_i128, trunc_div, HALF, ONE};

verus! {

/// How the interval that leaves a keyframe is eased.
#[derive(Clone, Copy, Debug, PartialEq, Eq, Structural)]
pub enum TweenType {
    /// No interpolation: the keyframe is held until the next one.
    Hold,
    Linear,
    EaseIn,
    EaseOut,
    EaseInOut,
    /// A timing curve from `(0, 0)` through the control points `(x1, y1)`
    /// and `(x2, y2)` to `(1, 1)`; the horizontal axis is time.
    CubicBezier { x1: i64, y1: i64, x2: i64, y2: i64 },
}

/// The name of a kind of easing, as an editor shows it.
pub open spec fn tween_name_spec(tween: TweenType) -> Seq<char> {
    match tween {
        TweenType::Hold => "None"@,
        TweenType::Linear => "Linear"@,
        TweenType::EaseIn => "Ease In"@,
        TweenType::EaseOut => "Ease Out"@,
        TweenType::EaseInOut => "Ease In/Out"@,
        TweenType::CubicBezier { .. } => "Custom"@,
    }
}

/// Names a kind of easing.
pub fn tween_name(tween: TweenType) -> (name: &'static str)
    ensures
        name@ == tween_name_spec(tween),
{
    match tween {
        TweenType::Hold => "None",
        TweenType::Linear => "Linear",
        TweenType::EaseIn => "Ease In",
        TweenType::EaseOut => "Ease Out",
        TweenType::EaseInOut => "Ease In/Out",
        TweenType::CubicBezier { .. } => "Custom",
    }
}

/// Newton steps taken at most when a timing curve is inverted.
pub const NEWTON_STEPS: u32 = 8;

/// The cube of [`ONE`]: the scale of a product of three scalars and a
/// control point, relative to one scalar.
pub open spec fn one_cubed() -> int {
    ONE * ONE * ONE
}

/// One coordinate of the timing curve at parameter `u`, for the control
/// values `a` and `b`: the Bernstein form
/// `3(1-u)^2 u a + 3(1-u) u^2 b + u^3`, evaluated exactly and rounded once.
pub open spec fn bezier_sample_spec(u: int, a: int, b: int) -> int {
    saturate(
        trunc_div(
            3 * (ONE - u) * (ONE - u) * u * a + 3 * (ONE - u) * u * u * b + u * u * u * ONE,
            one_cubed(),
        ),
    )
}

/// The derivative of that coordinate with respect to `u`:
/// `3(1-u)^2 a + 6(1-u) u (b - a) + 3 u^2 (1 - b)`.
pub open spec fn bezier_derivative_spec(u: int, a: int, b: int) -> int {
    saturate(
        trunc_div(
            3 * (ONE - u) * (ONE - u) * a + 6 * (ONE - u) * u * (b - a) + 3 * u * u * (ONE
                - b),
            ONE * ONE,
        ),
    )
}

/// The quotient of two scalars of either sign as a scalar, rounded towards
/// zero, for `d != 0`.
pub open spec fn quotient_spec(n: int, d: int) -> int {
    if d > 0 {
        trunc_div(n * ONE, d)
    } else {
        trunc_div(-(n * ONE), -d)
    }
}

/// The parameter reached from `guess` after at most `steps` Newton steps
/// towards `x(u) == t`. The iteration stops early when the residual or the
/// derivative is below one millionth, that is, zero; after every step the
/// parameter is brought back into `[0, ONE]`.
pub open spec fn newton_spec(guess: int, t: int, x1: int, x2: int, steps: nat) -> int
    decreases steps,
{
    if steps == 0 {
        guess
    } else {
        let residual = bezier_sample_spec(guess, x1, x2) - t;
        let slope = bezier_derivative_spec(guess, x1, x2);
        if residual == 0 || slope == 0 {
            guess
        } else {
            newton_spec(
                clamp_spec(guess - quotient_spec(residual, slope), 0, ONE as int),
                t,
                x1,
                x2,
                (steps - 1) as nat,
            )
        }
    }
}

/// The eased value of a custom timing curve at time `t`.
pub open spec fn bezier_easing_spec(t: int, x1: int, y1: int, x2: int, y2: int) -> int {
    bezier_sample_spec(newton_spec(t, t, x1, x2, NEWTON_STEPS as nat), y1, y2)
}

/// The eased fraction for the progress `t` under `tween`.
pub open spec fn easing_spec(t: int, tween: TweenType) -> int {
    match tween {
        TweenType::Hold => t,
        TweenType::Linear => t,
        TweenType::EaseIn => t * t / (ONE as int),
        TweenType::EaseOut => ONE - (ONE - t) * (ONE - t) / (ONE as int),
        TweenType::EaseInOut => if t < HALF {
            2 * t * t / (ONE as int)
        } else {
            ONE - (2 * ONE - 2 * t) * (2 * ONE - 2 * t) / (2 * ONE)
        },
        TweenType::CubicBezier { x1, y1, x2, y2 } => bezier_easing_spec(
            t,
            x1 as int,
            y1 as int,
            x2 as int,
            y2 as int,
        ),
    }
}

proof fn lemma_weights(u: int)
    by (nonlinear_arith)
    requires
        0 <= u <= 1_000_000,
    ensures
        0 <= 3 * (1_000_000 - u) * (1_000_000 - u) * u <= 3_000_000_000_000_000_000,
        0 <= 3 * (1_000_000 - u) * u * u <= 3_000_000_000_000_000_000,
        0 <= u * u * u * 1_000_000 <= 1_000_000_000_000_000_000_000_000,
        0 <= 3 * (1_000_000 - u) * (1_000_000 - u) <= 3_000_000_000_000,
        0 <= 6 * (1_000_000 - u) * u <= 6_000_000_000_000,
        0 <= 3 * (1_000_000 - u) * u <= 3_000_000_000_000,
        0 <= 3 * u * u <= 3_000_000_000_000,
        0 <= (1_000_000 - u) * (1_000_000 - u) <= 1_000_000_000_000,
        0 <= (1_000_000 - u) * u <= 1_000_000_000_000,
        0 <= u * u <= 1_000_000_000_000,
        0 <= u * u * u <= 1_000_000_000_000_000_000,
        0 <= (1_000_000 - u) * u * u <= 1_000_000_000_000_000_000,
        0 <= (1_000_000 - u) * (1_000_000 - u) * u <= 1_000_000_000_000_000_000,
{
}

proof fn lemma_weighted(w: int, bound: int, p: int, limit: int)
    by (nonlinear_arith)
    requires
        0 <= w <= bound,
        -limit <= p <= limit,
        0 <= limit,
    ensures
        -(bound * limit) <= w * p <= bound * limit,
{
}

/// Evaluates one coordinate of the timing curve at parameter `u`.
pub fn cubic_bezier_sample(u: i64, a: i64, b: i64) -> (r: i64)
    requires
        0 <= u <= ONE,
    ensures
        r == bezier_sample_spec(u as int, a as int, b as int),
{
    let one: i128 = ONE as i128;
    let uu: i128 = u as i128;
    let omu: i128 = one - uu;
    proof {
        lemma_weights(u as int);
    }
    let w1: i128 = 3 * omu * omu * uu;
    let w2: i128 = 3 * omu * uu * uu;
    let w3: i128 = uu * uu * uu * one;
    proof {
        lemma_weighted(
            w1 as int,
            3_000_000_000_000_000_000,
            a as int,
            0x8000_0000_0000_0000,
        );
        lemma_weighted(
            w2 as int,
            3_000_000_000_000_000_000,
            b as int,
            0x8000_0000_0000_0000,
        );
    }
    let total: i128 = w1 * (a as i128) + w2 * (b as i128) + w3;
    saturate_i128(total / (one * one * one))
}

/// Evaluates the derivative of one coordinate of the timing curve at
/// parameter `u`.
pub fn cubic_bezier_derivative(u: i64, a: i64, b: i64) -> (r: i64)
    requires
        0 <= u <= ONE,
    ensures
        r == bezier_derivative_spec(u as int, a as int, b as int),
{
    let one: i128 = ONE as i128;
    let uu: i128 = u as i128;
    let omu: i128 = one - uu;
    proof {
        lemma_weights(u as int);
    }
    let w1: i128 = 3 * omu * omu;
    let w2: i128 = 6 * omu * uu;
    let w3: i128 = 3 * uu * uu;
    let rise: i128 = (b as i128) - (a as i128);
    let rest: i128 = one - (b as i128);
    proof {
        lemma_weighted(w1 as int, 3_000_000_000_000, a as int, 0x8000_0000_0000_0000);
        lemma_weighted(w2 as int, 6_000_000_000_000, rise as int, 0x1_0000_0000_0000_0000);
        lemma_weighted(w3 as int, 3_000_000_000_000, rest as int, 0x1_0000_0000_0000_0000);
    }
    let total: i128 = w1 * (a as i128) + w2 * rise + w3 * rest;
    saturate_i128(total / (one * one))
}

/// Inverts `x(u) == t` by Newton's method and returns `y(u)`.
pub fn cubic_bezier_easing(t: i64, x1: i64, y1: i64, x2: i64, y2: i64) -> (r: i64)
    requires
        0 <= t <= ONE,
    ensures
        r == bezier_easing_spec(t as int, x1 as int, y1 as int, x2 as int, y2 as int),
{
    let mut guess: i64 = t;
    let mut left: u32 = NEWTON_STEPS;
    while left > 0
        invariant
            0 <= guess <= ONE,
            0 <= t <= ONE,
            newton_spec(guess as int, t as int, x1 as int, x2 as int, left as nat) == newton_spec(
                t as int,
                t as int,
                x1 as int,
                x2 as int,
                NEWTON_STEPS as nat,
            ),
        decreases left,
    {
        let residual: i128 = (cubic_bezier_sample(guess, x1, x2) as i128) - (t as i128);
        let slope: i64 = cubic_bezier_derivative(guess, x1, x2);
        if residual == 0 || slope == 0 {
            proof {
                lemma_newton_settled(guess as int, t as int, x1 as int, x2 as int, left as nat);
            }
            left = 0;
        } else {
            let scaled: i128 = residual * (ONE as i128);
            let step: i128 = if slope > 0 {
                scaled / (slope as i128)
            } else {
                (-scaled) / (-(slope as i128))
            };
            let moved: i128 = (guess as i128) - step;
            guess = if moved < 0 {
                0
            } else if moved > ONE as i128 {
                ONE
            } else {
                moved as i64
            };
            left = left - 1;
        }
    }
    cubic_bezier_sample(guess, y1, y2)
}

/// Once the residual or the derivative vanishes at `guess`, further steps
/// leave it where it is.
pub proof fn lemma_newton_settled(guess: int, t: int, x1: int, x2: int, steps: nat)
    requires
        bezier_sample_spec(guess, x1, x2) - t == 0 || bezier_derivative_spec(guess, x1, x2) == 0,
    ensures
        newton_spec(guess, t, x1, x2, steps) == guess,
{
    reveal_with_fuel(newton_spec, 2);
}

/// Maps the progress fraction `t` to the eased fraction under `tween`.
/// A custom curve may leave `[0, ONE]`; every other kind stays inside.
pub fn apply_easing(t: i64, tween: TweenType) -> (r: i64)
    requires
        0 <= t <= ONE,
    ensures
        r == easing_spec(t as int, tween),
{
    proof {
        lemma_weights(t as int);
    }
    match tween {
        TweenType::Hold => t,
        TweenType::Linear => t,
        TweenType::EaseIn => t * t / ONE,
        TweenType::EaseOut => ONE - (ONE - t) * (ONE - t) / ONE,
        TweenType::EaseInOut => {
            if t < HALF {
                assert(2 * t * t == 2 * (t * t)) by (nonlinear_arith);
                2 * t * t / ONE
            } else {
                let back: i64 = 2 * ONE - 2 * t;
                assert(0 <= back * back <= 1_000_000_000_000) by (nonlinear_arith)
                    requires
                        0 <= back <= 1_000_000,
                ;
                ONE - back * back / (2 * ONE)
            }
        },
        TweenType::CubicBezier { x1, y1, x2, y2 } => cubic_bezier_easing(t, x1, y1, x2, y2),
    }
}

/// The timing curve passes through its end points: whatever the control
/// values, a coordinate is zero at parameter zero and `ONE` at parameter
/// `ONE`.
pub proof fn lemma_bezier_sample_endpoints(a: int, b: int)
    ensures
        bezier_sample_spec(0, a, b) == 0,
        bezier_sample_spec(ONE as int, a, b) == ONE,
{
    assert(3 * (ONE - 0) * (ONE - 0) * 0 * a + 3 * (ONE - 0) * 0 * 0 * b + 0 * 0 * 0 * ONE == 0)
        by (nonlinear_arith);
    assert(3 * (ONE - ONE) * (ONE - ONE) * ONE * a + 3 * (ONE - ONE) * ONE * ONE * b + ONE * ONE
        * ONE * ONE == one_cubed() * ONE) by (nonlinear_arith);
    assert(one_cubed() == 1_000_000_000_000_000_000) by (nonlinear_arith);
}

/// Boundary conditions of a custom timing curve: for any control points
/// the eased value is zero at time zero and `ONE` at time `ONE`.
pub proof fn lemma_bezier_easing_endpoints(x1: int, y1: int, x2: int, y2: int)
    ensures
        bezier_easing_spec(0, x1, y1, x2, y2) == 0,
        bezier_easing_spec(ONE as int, x1, y1, x2, y2) == ONE,
{
    lemma_bezier_sample_endpoints(x1, x2);
    lemma_bezier_sample_endpoints(y1, y2);
    lemma_newton_settled(0, 0, x1, x2, NEWTON_STEPS as nat);
    lemma_newton_settled(ONE as int, ONE as int, x1, x2, NEWTON_STEPS as nat);
}

/// Every kind of easing starts at zero and ends at `ONE`.
pub proof fn lemma_easing_endpoints(tween: TweenType)
    ensures
        easing_spec(0, tween) == 0,
        easing_spec(ONE as int, tween) == ONE,
{
    match tween {
        TweenType::CubicBezier { x1, y1, x2, y2 } => {
            lemma_bezier_easing_endpoints(x1 as int, y1 as int, x2 as int, y2 as int);
        },
        _ => {},
    }
}

/// Every kind of easing but a custom curve keeps the progress inside
/// `[0, ONE]`.
pub proof fn lemma_easing_in_range(t: int, tween: TweenType)
    requires
        0 <= t <= ONE,
        !(tween is CubicBezier),
    ensures
        0 <= easing_spec(t, tween) <= ONE,
{
    lemma_weights(t);
    if tween is EaseInOut {
        if t < HALF {
            assert(0 <= 2 * t * t <= 1_000_000 * 500_000) by (nonlinear_arith)
                requires
                    0 <= t <= 500_000,
            ;
        } else {
            let back = 2 * ONE - 2 * t;
            assert(0 <= back * back <= 1_000_000_000_000) by (nonlinear_arith)
                requires
                    0 <= back <= 1_000_000,
            ;
        }
    }
}

} // verus!

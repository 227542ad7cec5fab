//! The fixed-point engine against the same formulas in floating point.

use animate::easing::{apply_easing, cubic_bezier_easing, TweenType};
use animate::fixed::{lerp, lerp_angle, wrap_angle, ONE};
use animate::shape::{shape_to_path, Shape};

fn fixed(value: f64) -> i64 {
    (value * ONE as f64).round() as i64
}

fn float(value: i64) -> f64 {
    value as f64 / ONE as f64
}

fn sample(t: f64, c1: f64, c2: f64) -> f64 {
    let omt = 1.0 - t;
    3.0 * omt * omt * t * c1 + 3.0 * omt * t * t * c2 + t * t * t
}

fn derivative(t: f64, c1: f64, c2: f64) -> f64 {
    let omt = 1.0 - t;
    3.0 * omt * omt * c1 + 6.0 * omt * t * (c2 - c1) + 3.0 * t * t * (1.0 - c2)
}

fn float_bezier(t: f64, x1: f64, y1: f64, x2: f64, y2: f64) -> f64 {
    let mut guess = t;
    for _ in 0..8 {
        let dx = sample(guess, x1, x2) - t;
        if dx.abs() < 1e-6 {
            break;
        }
        let slope = derivative(guess, x1, x2);
        if slope.abs() < 1e-6 {
            break;
        }
        guess -= dx / slope;
        guess = guess.clamp(0.0, 1.0);
    }
    sample(guess, y1, y2)
}

fn float_easing(t: f64, tween: TweenType) -> f64 {
    match tween {
        TweenType::Hold | TweenType::Linear => t,
        TweenType::EaseIn => t * t,
        TweenType::EaseOut => 1.0 - (1.0 - t) * (1.0 - t),
        TweenType::EaseInOut => {
            if t < 0.5 {
                2.0 * t * t
            } else {
                1.0 - (-2.0 * t + 2.0).powi(2) / 2.0
            }
        }
        TweenType::CubicBezier { x1, y1, x2, y2 } => {
            float_bezier(t, float(x1), float(y1), float(x2), float(y2))
        }
    }
}

#[test]
fn named_easings_agree_with_floating_point() {
    for tween in [TweenType::Linear, TweenType::EaseIn, TweenType::EaseOut, TweenType::EaseInOut] {
        for step in 0..=1000 {
            let t = step as f64 / 1000.0;
            let eased = float(apply_easing(fixed(t), tween));
            assert!((eased - float_easing(t, tween)).abs() < 2e-6);
        }
    }
}

#[test]
fn custom_curves_agree_with_floating_point() {
    let curves = [
        (0.25, 0.1, 0.25, 1.0),
        (0.42, 0.0, 1.0, 1.0),
        (0.0, 0.0, 0.58, 1.0),
        (0.42, 0.0, 0.58, 1.0),
        (0.34, 1.56, 0.64, 1.0),
        (0.68, -0.55, 0.265, 1.55),
        (0.1, 0.9, 0.9, 0.1),
    ];
    for (x1, y1, x2, y2) in curves {
        for step in 0..=1000 {
            let t = step as f64 / 1000.0;
            let eased =
                float(cubic_bezier_easing(fixed(t), fixed(x1), fixed(y1), fixed(x2), fixed(y2)));
            assert!((eased - float_bezier(t, x1, y1, x2, y2)).abs() < 5e-5);
        }
    }
}

#[test]
fn interpolation_agrees_with_floating_point() {
    let values = [-1234.5, -1.0, 0.0, 0.25, 3.75, 1920.0];
    for a in values {
        for b in values {
            for step in 0..=20 {
                let t = step as f64 / 20.0;
                let blended = float(lerp(fixed(a), fixed(b), fixed(t)));
                assert!((blended - (a + (b - a) * t)).abs() < 2e-6);
            }
        }
    }
}

#[test]
fn angles_agree_with_floating_point() {
    let pi = std::f64::consts::PI;
    let degrees = [-720.0, -350.0, -180.5, -90.0, 0.0, 10.0, 179.0, 181.0, 350.0, 725.0];
    for a in degrees {
        for b in degrees {
            let (a, b): (f64, f64) = (a * pi / 180.0, b * pi / 180.0);
            let mut diff = b - a;
            while diff > pi {
                diff -= 2.0 * pi;
            }
            while diff <= -pi {
                diff += 2.0 * pi;
            }
            let wrapped = float(wrap_angle((fixed(b) - fixed(a)) as i128));
            // The fixed-point turn differs from the real one in the seventh
            // place, so every turn taken off may shift the result by that.
            assert!((wrapped - diff).abs() < 1e-5);
            let mid = float(lerp_angle(fixed(a), fixed(b), ONE / 4));
            assert!((mid - (a + diff * 0.25)).abs() < 1e-5);
        }
    }
}

#[test]
fn ellipse_outline_agrees_with_floating_point() {
    let (rx, ry) = (123.456, 78.9);
    let path = shape_to_path(&Shape::Ellipse { radius_x: fixed(rx), radius_y: fixed(ry) });
    let points = match &path {
        Shape::Path { points, .. } => points,
        other => panic!("not a path: {:?}", other),
    };
    for (k, point) in points.iter().enumerate() {
        let angle = 2.0 * std::f64::consts::PI * k as f64 / 16.0;
        assert!((float(point.position.x) - angle.cos() * rx).abs() < 1e-4);
        assert!((float(point.position.y) - angle.sin() * ry).abs() < 1e-4);
    }
}

use animate::fixed::{HALF, ONE};
use animate::geometry::Vec2;
use animate::paint::{lerp_color, lerp_paint, sample_gradient, Color, GradientStop, Paint};

const RED: Color = Color { r: ONE, g: 0, b: 0, a: ONE };
const BLUE: Color = Color { r: 0, g: 0, b: ONE, a: ONE };
const BLACK: Color = Color { r: 0, g: 0, b: 0, a: ONE };

fn linear(stops: Vec<GradientStop>) -> Paint {
    Paint::LinearGradient { start: Vec2 { x: 0, y: 0 }, end: Vec2 { x: ONE, y: 0 }, stops }
}

fn radial(stops: Vec<GradientStop>) -> Paint {
    Paint::RadialGradient { center: Vec2 { x: 0, y: 0 }, radius: ONE, stops }
}

fn two_stops() -> Vec<GradientStop> {
    vec![
        GradientStop { offset: 200_000, color: RED },
        GradientStop { offset: 800_000, color: BLUE },
    ]
}

#[test]
fn default_paint_is_opaque_black() {
    assert_eq!(Paint::default(), Paint::Solid(BLACK));
}

#[test]
fn clone_keeps_the_paint() {
    let p = linear(two_stops());
    assert_eq!(p.clone(), p);
    let q = radial(two_stops());
    assert_eq!(q.clone(), q);
    assert_eq!(Paint::Solid(RED).clone(), Paint::Solid(RED));
}

#[test]
fn as_solid_of_each_kind() {
    assert_eq!(Paint::Solid(RED).as_solid(), RED);
    assert_eq!(linear(two_stops()).as_solid(), RED);
    assert_eq!(radial(two_stops()).as_solid(), RED);
    assert_eq!(linear(vec![]).as_solid(), BLACK);
    assert_eq!(radial(vec![]).as_solid(), BLACK);
}

#[test]
fn lerp_color_is_per_channel() {
    let a = Color { r: 0, g: ONE, b: 200_000, a: ONE };
    let b = Color { r: ONE, g: 0, b: 600_000, a: 0 };
    assert_eq!(lerp_color(a, b, 250_000), Color { r: 250_000, g: 750_000, b: 300_000, a: 750_000 });
}

#[test]
fn lerp_paint_between_solids() {
    let r = lerp_paint(&Paint::Solid(RED), &Paint::Solid(BLUE), HALF);
    assert_eq!(r, Paint::Solid(Color { r: HALF, g: 0, b: HALF, a: ONE }));
}

#[test]
fn lerp_paint_collapses_gradients_to_their_first_stop() {
    let g = linear(two_stops());
    let r = lerp_paint(&g, &Paint::Solid(BLUE), HALF);
    assert_eq!(r, Paint::Solid(Color { r: HALF, g: 0, b: HALF, a: ONE }));
    let r = lerp_paint(&Paint::Solid(BLUE), &radial(vec![]), ONE);
    assert_eq!(r, Paint::Solid(BLACK));
    let r = lerp_paint(&g, &g, 0);
    assert_eq!(r, Paint::Solid(RED));
}

#[test]
fn sampling_a_gradient() {
    let stops = two_stops();
    assert_eq!(sample_gradient(&stops, 0), RED);
    assert_eq!(sample_gradient(&stops, 200_000), RED);
    assert_eq!(sample_gradient(&stops, 800_000), BLUE);
    assert_eq!(sample_gradient(&stops, ONE), BLUE);
    assert_eq!(sample_gradient(&stops, HALF), Color { r: HALF, g: 0, b: HALF, a: ONE });
    assert_eq!(
        sample_gradient(&stops, 350_000),
        Color { r: 750_000, g: 0, b: 250_000, a: ONE }
    );
}

#[test]
fn sampling_degenerate_gradients() {
    assert_eq!(sample_gradient(&vec![], HALF), BLACK);
    let one = vec![GradientStop { offset: HALF, color: BLUE }];
    assert_eq!(sample_gradient(&one, 0), BLUE);
    assert_eq!(sample_gradient(&one, ONE), BLUE);
    // Two stops at one offset: at that offset the earlier of the pair is
    // reached in full, above it the later one starts the blend.
    let stops = vec![
        GradientStop { offset: 0, color: RED },
        GradientStop { offset: HALF, color: BLUE },
        GradientStop { offset: HALF, color: BLACK },
        GradientStop { offset: ONE, color: RED },
    ];
    assert_eq!(sample_gradient(&stops, HALF), BLUE);
    assert_eq!(sample_gradient(&stops, 750_000), Color { r: HALF, g: 0, b: 0, a: ONE });
    // Stops out of order: the blend runs between the first stop at or
    // after the position and the stop just before it in the list.
    let unordered = vec![
        GradientStop { offset: 0, color: RED },
        GradientStop { offset: 900_000, color: BLUE },
        GradientStop { offset: 100_000, color: BLACK },
        GradientStop { offset: ONE, color: RED },
    ];
    assert_eq!(sample_gradient(&unordered, 950_000), Color { r: 944_444, g: 0, b: 0, a: ONE });
}

#[test]
fn sample_at_of_each_kind() {
    assert_eq!(Paint::Solid(RED).sample_at(HALF), RED);
    assert_eq!(linear(two_stops()).sample_at(HALF), Color { r: HALF, g: 0, b: HALF, a: ONE });
    assert_eq!(radial(two_stops()).sample_at(0), RED);
    assert_eq!(linear(vec![]).sample_at(0), BLACK);
}

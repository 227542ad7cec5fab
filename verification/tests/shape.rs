use animate::fixed::{HALF, ONE};
use animate::geometry::Vec2;
use animate::shape::{
    circle_cos, circle_sin, corner, edge_length_squared, interpolate_optional_point,
    interpolate_path_point, interpolate_shape, longest_edge_index, morph_paths,
    normalize_path_points, shape_to_path, subdivide_path_to_count, FontFamily, PathPoint, Shape,
    ELLIPSE_SEGMENTS,
};

fn at(x: i64, y: i64) -> PathPoint {
    corner(x * ONE, y * ONE)
}

fn positions(points: &[PathPoint]) -> Vec<(i64, i64)> {
    points.iter().map(|p| (p.position.x, p.position.y)).collect()
}

fn path_points(shape: &Shape) -> (&Vec<PathPoint>, bool) {
    match shape {
        Shape::Path { points, closed } => (points, *closed),
        other => panic!("not a path: {:?}", other),
    }
}

fn five() -> Vec<PathPoint> {
    vec![at(0, 0), at(10, 0), at(10, 10), at(0, 10), at(-5, 5)]
}

fn two() -> Vec<PathPoint> {
    vec![at(0, 0), at(4, 0)]
}

#[test]
fn corner_has_no_handles_and_full_pressure() {
    let p = corner(3, -4);
    assert_eq!(p.position, Vec2 { x: 3, y: -4 });
    assert_eq!(p.control_in, None);
    assert_eq!(p.control_out, None);
    assert_eq!(p.pressure, ONE);
}

#[test]
fn unit_circle_table() {
    assert_eq!(ELLIPSE_SEGMENTS, 16);
    assert_eq!(circle_cos(0), ONE);
    assert_eq!(circle_sin(0), 0);
    assert_eq!(circle_cos(4), 0);
    assert_eq!(circle_sin(4), ONE);
    assert_eq!(circle_cos(8), -ONE);
    assert_eq!(circle_sin(12), -ONE);
    assert_eq!(circle_cos(2), 707_107);
    assert_eq!(circle_sin(2), 707_107);
    assert_eq!(circle_cos(1), 923_880);
    assert_eq!(circle_sin(1), 382_683);
    for k in 0..16 {
        let angle = 2.0 * std::f64::consts::PI * k as f64 / 16.0;
        assert_eq!(circle_cos(k), (angle.cos() * 1e6).round() as i64);
        assert_eq!(circle_sin(k), (angle.sin() * 1e6).round() as i64);
    }
}

#[test]
fn rectangle_becomes_its_four_corners() {
    let path = shape_to_path(&Shape::Rectangle {
        width: 100 * ONE,
        height: 40 * ONE,
        corner_radius: 5 * ONE,
    });
    let (points, closed) = path_points(&path);
    assert!(closed);
    assert_eq!(
        positions(points),
        vec![
            (-50 * ONE, -20 * ONE),
            (50 * ONE, -20 * ONE),
            (50 * ONE, 20 * ONE),
            (-50 * ONE, 20 * ONE)
        ]
    );
    assert!(points.iter().all(|p| *p == corner(p.position.x, p.position.y)));
}

#[test]
fn rectangle_of_odd_or_extreme_size() {
    let path = shape_to_path(&Shape::Rectangle { width: 3, height: -3, corner_radius: 0 });
    let (points, _) = path_points(&path);
    assert_eq!(positions(points), vec![(-1, 1), (1, 1), (1, -1), (-1, -1)]);
    let path = shape_to_path(&Shape::Rectangle {
        width: i64::MIN,
        height: i64::MAX,
        corner_radius: 0,
    });
    let (points, _) = path_points(&path);
    assert_eq!(points[0].position, Vec2 { x: -(i64::MIN / 2), y: -(i64::MAX / 2) });
}

#[test]
fn ellipse_becomes_sixteen_points() {
    let path = shape_to_path(&Shape::Ellipse { radius_x: 10 * ONE, radius_y: 5 * ONE });
    let (points, closed) = path_points(&path);
    assert!(closed);
    assert_eq!(points.len(), 16);
    assert_eq!(points[0].position, Vec2 { x: 10 * ONE, y: 0 });
    assert_eq!(points[4].position, Vec2 { x: 0, y: 5 * ONE });
    assert_eq!(points[8].position, Vec2 { x: -10 * ONE, y: 0 });
    assert_eq!(points[12].position, Vec2 { x: 0, y: -5 * ONE });
    assert_eq!(points[2].position, Vec2 { x: 7_071_070, y: 3_535_535 });
    assert_eq!(points[15].position, Vec2 { x: 9_238_800, y: -1_913_415 });
    assert!(points.iter().all(|p| p.control_in.is_none() && p.pressure == ONE));
}

#[test]
fn line_becomes_an_open_path() {
    let path = shape_to_path(&Shape::Line { end_x: 7 * ONE, end_y: -2 * ONE });
    let (points, closed) = path_points(&path);
    assert!(!closed);
    assert_eq!(positions(points), vec![(0, 0), (7 * ONE, -2 * ONE)]);
}

#[test]
fn other_shapes_have_no_path() {
    let text = Shape::Text {
        content: "hi".to_string(),
        font_size: 12 * ONE,
        font_family: FontFamily::Serif,
    };
    assert_eq!(shape_to_path(&text), text);
    let image = Shape::RasterImage {
        image_id: 9,
        source_width: 4,
        source_height: 3,
        display_width: 40 * ONE,
        display_height: 30 * ONE,
    };
    assert_eq!(shape_to_path(&image), image);
    let symbol = Shape::SymbolInstance { symbol_id: 77 };
    assert_eq!(shape_to_path(&symbol), symbol);
    let path = Shape::Path { points: five(), closed: false };
    assert_eq!(shape_to_path(&path), path);
}

#[test]
fn optional_handles() {
    let a = Vec2 { x: 0, y: 0 };
    let b = Vec2 { x: 10, y: 20 };
    assert_eq!(interpolate_optional_point(Some(a), Some(b), HALF), Some(Vec2 { x: 5, y: 10 }));
    assert_eq!(interpolate_optional_point(Some(a), None, HALF), Some(a));
    assert_eq!(interpolate_optional_point(None, Some(b), HALF), Some(b));
    assert_eq!(interpolate_optional_point(None, None, HALF), None);
}

#[test]
fn path_points_blend_every_field() {
    let from = PathPoint {
        position: Vec2 { x: 0, y: 0 },
        control_in: Some(Vec2 { x: -10, y: 0 }),
        control_out: None,
        pressure: ONE,
    };
    let to = PathPoint {
        position: Vec2 { x: 100, y: 200 },
        control_in: Some(Vec2 { x: 10, y: 40 }),
        control_out: Some(Vec2 { x: 1, y: 2 }),
        pressure: 0,
    };
    let mid = interpolate_path_point(&from, &to, 250_000);
    assert_eq!(mid.position, Vec2 { x: 25, y: 50 });
    assert_eq!(mid.control_in, Some(Vec2 { x: -5, y: 10 }));
    assert_eq!(mid.control_out, Some(Vec2 { x: 1, y: 2 }));
    assert_eq!(mid.pressure, 750_000);
}

#[test]
fn edge_lengths_are_squared_and_saturated() {
    assert_eq!(edge_length_squared(&corner(0, 0), &corner(3, 4)), 25);
    assert_eq!(edge_length_squared(&corner(3, 4), &corner(0, 0)), 25);
    assert_eq!(edge_length_squared(&corner(1, 1), &corner(1, 1)), 0);
    let far = edge_length_squared(&corner(i64::MIN, i64::MIN), &corner(i64::MAX, i64::MAX));
    assert_eq!(far, 2 * (i64::MAX as u128) * (i64::MAX as u128));
}

#[test]
fn longest_edge_is_the_first_of_the_longest() {
    assert_eq!(longest_edge_index(&vec![at(0, 0), at(1, 0)]), 0);
    assert_eq!(longest_edge_index(&vec![at(0, 0)]), 0);
    assert_eq!(longest_edge_index(&vec![]), 0);
    assert_eq!(longest_edge_index(&vec![at(0, 0), at(1, 0), at(3, 0), at(4, 0)]), 1);
    assert_eq!(longest_edge_index(&vec![at(0, 0), at(2, 0), at(4, 0), at(5, 0)]), 0);
    assert_eq!(longest_edge_index(&vec![at(0, 0), at(0, 0), at(0, 0)]), 0);
    assert_eq!(longest_edge_index(&vec![at(0, 0), at(0, 0), at(0, 1)]), 1);
}

#[test]
fn subdivide_splits_the_longest_edge_until_the_count_is_reached() {
    let r = subdivide_path_to_count(&two(), 5);
    assert_eq!(
        positions(&r),
        vec![(0, 0), (ONE, 0), (2 * ONE, 0), (3 * ONE, 0), (4 * ONE, 0)]
    );
    let r = subdivide_path_to_count(&two(), 3);
    assert_eq!(positions(&r), vec![(0, 0), (2 * ONE, 0), (4 * ONE, 0)]);
}

#[test]
fn subdivide_leaves_short_and_long_paths_alone() {
    assert_eq!(subdivide_path_to_count(&five(), 5), five());
    assert_eq!(subdivide_path_to_count(&five(), 3), five());
    assert_eq!(subdivide_path_to_count(&vec![at(1, 1)], 4), vec![at(1, 1)]);
    assert_eq!(subdivide_path_to_count(&vec![], 4), vec![]);
    assert_eq!(subdivide_path_to_count(&two(), 0), two());
}

#[test]
fn subdivide_midpoints_keep_the_handle_that_exists() {
    let mut a = at(0, 0);
    a.control_out = Some(Vec2 { x: ONE, y: ONE });
    a.pressure = 0;
    let mut b = at(4, 0);
    b.control_out = Some(Vec2 { x: 3 * ONE, y: ONE });
    b.control_in = Some(Vec2 { x: 5, y: 6 });
    let r = subdivide_path_to_count(&vec![a, b], 3);
    assert_eq!(r.len(), 3);
    assert_eq!(r[0], a);
    assert_eq!(r[2], b);
    assert_eq!(r[1].position, Vec2 { x: 2 * ONE, y: 0 });
    assert_eq!(r[1].control_out, Some(Vec2 { x: 2 * ONE, y: ONE }));
    assert_eq!(r[1].control_in, Some(Vec2 { x: 5, y: 6 }));
    assert_eq!(r[1].pressure, HALF);
}

#[test]
fn normalize_passes_equal_counts_through() {
    let (a, b) = normalize_path_points(&five(), &five());
    assert_eq!(a, five());
    assert_eq!(b, five());
}

#[test]
fn normalize_subdivides_the_shorter_side() {
    let (a, b) = normalize_path_points(&two(), &five());
    assert_eq!(a.len(), 5);
    assert_eq!(b, five());
    assert_eq!(a, subdivide_path_to_count(&two(), 5));
    let (a, b) = normalize_path_points(&five(), &two());
    assert_eq!(a, five());
    assert_eq!(b, subdivide_path_to_count(&two(), 5));
}

#[test]
fn path_normalization_round_trip() {
    // From five points to two: at the start the five points themselves, at
    // the end the two points with their subdivision points.
    let start = morph_paths(&five(), true, &two(), false, 0);
    let (points, closed) = path_points(&start);
    assert_eq!(positions(points), positions(&five()));
    assert!(closed);
    let end = morph_paths(&five(), true, &two(), false, ONE);
    let (points, closed) = path_points(&end);
    assert_eq!(positions(points), positions(&subdivide_path_to_count(&two(), 5)));
    assert!(!closed);
    // From two points to five: at the end the five points themselves.
    let start = morph_paths(&two(), false, &five(), true, 0);
    let (points, _) = path_points(&start);
    assert_eq!(positions(points), positions(&subdivide_path_to_count(&two(), 5)));
    let end = morph_paths(&two(), false, &five(), true, ONE);
    let (points, _) = path_points(&end);
    assert_eq!(positions(points), positions(&five()));
}

#[test]
fn closed_flag_switches_at_the_half_way_point() {
    for (t, expected) in [(0, true), (HALF - 1, true), (HALF, false), (ONE, false)] {
        let r = morph_paths(&two(), true, &two(), false, t);
        assert_eq!(path_points(&r).1, expected);
    }
    let r = morph_paths(&two(), false, &two(), true, -5);
    assert!(!path_points(&r).1);
}

#[test]
fn a_path_that_cannot_be_subdivided_is_paired_as_far_as_it_reaches() {
    let r = morph_paths(&vec![at(2, 2)], false, &five(), false, HALF);
    let (points, _) = path_points(&r);
    assert_eq!(positions(points), vec![(ONE, ONE)]);
    let r = morph_paths(&vec![], false, &five(), false, HALF);
    assert_eq!(path_points(&r).0.len(), 0);
}

#[test]
fn shapes_of_one_kind_blend_field_by_field() {
    let r = interpolate_shape(
        &Shape::Rectangle { width: 10 * ONE, height: 20 * ONE, corner_radius: 0 },
        &Shape::Rectangle { width: 30 * ONE, height: 0, corner_radius: 4 * ONE },
        HALF,
    );
    assert_eq!(r, Shape::Rectangle { width: 20 * ONE, height: 10 * ONE, corner_radius: 2 * ONE });
    let r = interpolate_shape(
        &Shape::Ellipse { radius_x: 0, radius_y: 8 * ONE },
        &Shape::Ellipse { radius_x: 4 * ONE, radius_y: 0 },
        250_000,
    );
    assert_eq!(r, Shape::Ellipse { radius_x: ONE, radius_y: 6 * ONE });
    let r = interpolate_shape(
        &Shape::Line { end_x: 0, end_y: 0 },
        &Shape::Line { end_x: 10 * ONE, end_y: -10 * ONE },
        100_000,
    );
    assert_eq!(r, Shape::Line { end_x: ONE, end_y: -ONE });
}

#[test]
fn two_paths_are_morphed() {
    let r = interpolate_shape(
        &Shape::Path { points: two(), closed: false },
        &Shape::Path { points: vec![at(0, 10), at(4, 10)], closed: true },
        HALF,
    );
    let (points, closed) = path_points(&r);
    assert!(closed);
    assert_eq!(positions(points), vec![(0, 5 * ONE), (4 * ONE, 5 * ONE)]);
}

#[test]
fn shapes_of_different_kinds_are_morphed_through_their_paths() {
    let rect = Shape::Rectangle { width: 20 * ONE, height: 20 * ONE, corner_radius: 0 };
    let ellipse = Shape::Ellipse { radius_x: 10 * ONE, radius_y: 10 * ONE };
    let start = interpolate_shape(&rect, &ellipse, 0);
    let (points, closed) = path_points(&start);
    assert!(closed);
    assert_eq!(points.len(), 16);
    let (rect_points, _) = {
        let p = shape_to_path(&rect);
        let (pts, c) = path_points(&p);
        (pts.clone(), c)
    };
    assert_eq!(positions(points), positions(&subdivide_path_to_count(&rect_points, 16)));
    let end = interpolate_shape(&rect, &ellipse, ONE);
    let ellipse_path = shape_to_path(&ellipse);
    assert_eq!(positions(path_points(&end).0), positions(path_points(&ellipse_path).0));
    let line = Shape::Line { end_x: 8 * ONE, end_y: 0 };
    let r = interpolate_shape(&line, &Shape::Path { points: two(), closed: true }, HALF);
    let (points, closed) = path_points(&r);
    assert!(closed);
    assert_eq!(positions(points), vec![(0, 0), (6 * ONE, 0)]);
}

#[test]
fn a_shape_without_path_holds_the_first_shape() {
    let text = Shape::Text {
        content: "hi".to_string(),
        font_size: 12 * ONE,
        font_family: FontFamily::Monospace,
    };
    let bigger = Shape::Text {
        content: "ho".to_string(),
        font_size: 24 * ONE,
        font_family: FontFamily::SansSerif,
    };
    let rect = Shape::Rectangle { width: 20 * ONE, height: 20 * ONE, corner_radius: 0 };
    assert_eq!(interpolate_shape(&text, &bigger, HALF), text);
    assert_eq!(interpolate_shape(&text, &rect, HALF), text);
    assert_eq!(interpolate_shape(&rect, &text, HALF), rect);
    let symbol = Shape::SymbolInstance { symbol_id: 5 };
    assert_eq!(interpolate_shape(&symbol, &rect, ONE), symbol);
}

#[test]
fn clone_keeps_the_shape() {
    let path = Shape::Path { points: five(), closed: true };
    assert_eq!(path.clone(), path);
    let text = Shape::Text {
        content: "hi".to_string(),
        font_size: 12 * ONE,
        font_family: FontFamily::Serif,
    };
    assert_eq!(text.clone(), text);
}

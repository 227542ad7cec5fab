//! Shapes, and the morphing of one shape into another.
use vstd::prelude::*;
use crate::fixed::{
    lemma_lerp_endpoints, lerp, lerp_spec, mul_fixed, mul_spec, saturate, trunc_div, HALF, ONE,
};
use crate::geometry::{lerp_vec2, lerp_vec2_spec, Vec2};
use crate::ids::ObjectId;

verus! {

/// A point of a path: where it is, the handles of the curve that arrives
/// and of the curve that leaves, and the pressure of the stroke there.
#[derive(Clone, Copy, Debug, PartialEq, Eq)]
pub struct PathPoint {
    pub position: Vec2,
    pub control_in: Option<Vec2>,
    pub control_out: Option<Vec2>,
    pub pressure: i64,
}

/// The family of a text's font.
#[derive(Clone, Copy, Debug, PartialEq, Eq, Structural)]
pub enum FontFamily {
    SansSerif,
    Serif,
    Monospace,
}

/// What an object looks like, in its own coordinates.
#[derive(Debug, PartialEq, Eq)]
pub enum Shape {
    Rectangle { width: i64, height: i64, corner_radius: i64 },
    Ellipse { radius_x: i64, radius_y: i64 },
    Line { end_x: i64, end_y: i64 },
    Path { points: Vec<PathPoint>, closed: bool },
    Text { content: String, font_size: i64, font_family: FontFamily },
    RasterImage {
        image_id: ObjectId,
        source_width: u32,
        source_height: u32,
        display_width: i64,
        display_height: i64,
    },
    SymbolInstance { symbol_id: ObjectId },
}

/// The mathematical value of a [`Shape`].
pub ghost enum ShapeView {
    Rectangle { width: i64, height: i64, corner_radius: i64 },
    Ellipse { radius_x: i64, radius_y: i64 },
    Line { end_x: i64, end_y: i64 },
    Path { points: Seq<PathPoint>, closed: bool },
    Text { content: Seq<char>, font_size: i64, font_family: FontFamily },
    RasterImage {
        image_id: ObjectId,
        source_width: u32,
        source_height: u32,
        display_width: i64,
        display_height: i64,
    },
    SymbolInstance { symbol_id: ObjectId },
}

impl View for Shape {
    type V = ShapeView;

    open spec fn view(&self) -> ShapeView {
        match *self {
            Shape::Rectangle { width, height, corner_radius } => ShapeView::Rectangle {
                width,
                height,
                corner_radius,
            },
            Shape::Ellipse { radius_x, radius_y } => ShapeView::Ellipse { radius_x, radius_y },
            Shape::Line { end_x, end_y } => ShapeView::Line { end_x, end_y },
            Shape::Path { points, closed } => ShapeView::Path { points: points@, closed },
            Shape::Text { content, font_size, font_family } => ShapeView::Text {
                content: content@,
                font_size,
                font_family,
            },
            Shape::RasterImage {
                image_id,
                source_width,
                source_height,
                display_width,
                display_height,
            } => ShapeView::RasterImage {
                image_id,
                source_width,
                source_height,
                display_width,
                display_height,
            },
            Shape::SymbolInstance { symbol_id } => ShapeView::SymbolInstance { symbol_id },
        }
    }
}

/// Copies a list of path points.
pub fn copy_points(points: &Vec<PathPoint>) -> (r: Vec<PathPoint>)
    ensures
        r@ == points@,
{
    let mut out: Vec<PathPoint> = Vec::new();
    let mut i: usize = 0;
    while i < points.len()
        invariant
            i <= points.len(),
            out@ == points@.subrange(0, i as int),
        decreases points.len() - i,
    {
        out.push(points[i]);
        i += 1;
    }
    out
}

impl Clone for Shape {
    fn clone(&self) -> (r: Self)
        ensures
            r@ == self@,
    {
        match self {
            Shape::Rectangle { width, height, corner_radius } => Shape::Rectangle {
                width: *width,
                height: *height,
                corner_radius: *corner_radius,
            },
            Shape::Ellipse { radius_x, radius_y } => Shape::Ellipse {
                radius_x: *radius_x,
                radius_y: *radius_y,
            },
            Shape::Line { end_x, end_y } => Shape::Line { end_x: *end_x, end_y: *end_y },
            Shape::Path { points, closed } => Shape::Path {
                points: copy_points(points),
                closed: *closed,
            },
            Shape::Text { content, font_size, font_family } => Shape::Text {
                content: content.clone(),
                font_size: *font_size,
                font_family: *font_family,
            },
            Shape::RasterImage {
                image_id,
                source_width,
                source_height,
                display_width,
                display_height,
            } => Shape::RasterImage {
                image_id: *image_id,
                source_width: *source_width,
                source_height: *source_height,
                display_width: *display_width,
                display_height: *display_height,
            },
            Shape::SymbolInstance { symbol_id } => Shape::SymbolInstance {
                symbol_id: *symbol_id,
            },
        }
    }
}

/// The number of sides of the polygon that stands for an ellipse.
pub const ELLIPSE_SEGMENTS: usize = 16;

/// The cosine of `k` sixteenths of a turn, rounded to the nearest
/// millionth.
pub open spec fn circle_cos_spec(k: int) -> int {
    if k == 0 {
        1_000_000
    } else if k == 1 || k == 15 {
        923_880
    } else if k == 2 || k == 14 {
        707_107
    } else if k == 3 || k == 13 {
        382_683
    } else if k == 4 || k == 12 {
        0
    } else if k == 5 || k == 11 {
        -382_683
    } else if k == 6 || k == 10 {
        -707_107
    } else if k == 7 || k == 9 {
        -923_880
    } else {
        -1_000_000
    }
}

/// The sine of `k` sixteenths of a turn: the cosine a quarter turn earlier.
pub open spec fn circle_sin_spec(k: int) -> int {
    circle_cos_spec((k + 12) % 16)
}

/// A corner: a point without handles, at full pressure.
pub open spec fn corner_spec(x: int, y: int) -> PathPoint {
    PathPoint {
        position: Vec2 { x: x as i64, y: y as i64 },
        control_in: None,
        control_out: None,
        pressure: ONE,
    }
}

/// The four corners of a rectangle around the origin, clockwise from the
/// top left.
pub open spec fn rectangle_points_spec(width: int, height: int) -> Seq<PathPoint> {
    let half_w = trunc_div(width, 2);
    let half_h = trunc_div(height, 2);
    seq![
        corner_spec(-half_w, -half_h),
        corner_spec(half_w, -half_h),
        corner_spec(half_w, half_h),
        corner_spec(-half_w, half_h),
    ]
}

/// The sixteen corners of the polygon that stands for an ellipse.
pub open spec fn ellipse_points_spec(radius_x: int, radius_y: int) -> Seq<PathPoint> {
    Seq::new(
        ELLIPSE_SEGMENTS as nat,
        |k: int|
            corner_spec(
                mul_spec(circle_cos_spec(k), radius_x),
                mul_spec(circle_sin_spec(k), radius_y),
            ),
    )
}

/// The path that stands for a shape when it is morphed into a shape of
/// another kind. Text, images and symbol instances have none and stay as
/// they are.
pub open spec fn shape_to_path_spec(shape: ShapeView) -> ShapeView {
    match shape {
        ShapeView::Rectangle { width, height, .. } => ShapeView::Path {
            points: rectangle_points_spec(width as int, height as int),
            closed: true,
        },
        ShapeView::Ellipse { radius_x, radius_y } => ShapeView::Path {
            points: ellipse_points_spec(radius_x as int, radius_y as int),
            closed: true,
        },
        ShapeView::Line { end_x, end_y } => ShapeView::Path {
            points: seq![corner_spec(0, 0), corner_spec(end_x as int, end_y as int)],
            closed: false,
        },
        _ => shape,
    }
}

/// A handle between two points: blended where both have it, held where
/// only one has it.
pub open spec fn interpolate_optional_point_spec(
    from: Option<Vec2>,
    to: Option<Vec2>,
    t: int,
) -> Option<Vec2> {
    match (from, to) {
        (Some(a), Some(b)) => Some(lerp_vec2_spec(a, b, t)),
        (Some(a), None) => Some(a),
        (None, Some(b)) => Some(b),
        (None, None) => None,
    }
}

/// The path point a fraction `t` of the way from `from` to `to`.
pub open spec fn interpolate_path_point_spec(from: PathPoint, to: PathPoint, t: int) -> PathPoint {
    PathPoint {
        position: lerp_vec2_spec(from.position, to.position, t),
        control_in: interpolate_optional_point_spec(from.control_in, to.control_in, t),
        control_out: interpolate_optional_point_spec(from.control_out, to.control_out, t),
        pressure: lerp_spec(from.pressure as int, to.pressure as int, t) as i64,
    }
}

/// The square of the length of the edge from `a` to `b`, each axis
/// difference saturated first.
pub open spec fn edge_length_sq(a: PathPoint, b: PathPoint) -> int {
    let dx = saturate(b.position.x - a.position.x);
    let dy = saturate(b.position.y - a.position.y);
    dx * dx + dy * dy
}

/// The square of the length of the edge that leaves point `i`.
pub open spec fn edge_sq(points: Seq<PathPoint>, i: int) -> int {
    edge_length_sq(points[i], points[i + 1])
}

/// Among the first `edges` edges of a path, the first of the longest.
pub open spec fn longest_edge(points: Seq<PathPoint>, edges: int) -> int
    decreases edges,
{
    if edges <= 1 {
        0
    } else {
        let best = longest_edge(points, edges - 1);
        if edge_sq(points, edges - 1) > edge_sq(points, best) {
            edges - 1
        } else {
            best
        }
    }
}

/// The first of the longest edges is one of the edges.
pub proof fn lemma_longest_edge_range(points: Seq<PathPoint>, edges: int)
    ensures
        0 <= longest_edge(points, edges),
        edges >= 1 ==> longest_edge(points, edges) < edges,
    decreases edges,
{
    if edges > 1 {
        lemma_longest_edge_range(points, edges - 1);
    }
}

/// `points` with the midpoint of its longest edge put in, again and again,
/// until there are `target` points. A path that has `target` points
/// already, or fewer than two, stays as it is.
pub open spec fn subdivide_spec(points: Seq<PathPoint>, target: nat) -> Seq<PathPoint>
    decreases target - points.len(),
{
    if points.len() >= target || points.len() < 2 {
        points
    } else {
        let k = longest_edge(points, points.len() - 1);
        proof {
            lemma_longest_edge_range(points, points.len() - 1);
        }
        subdivide_spec(
            points.insert(k + 1, interpolate_path_point_spec(points[k], points[k + 1], HALF as int)),
            target,
        )
    }
}

/// Two point lists brought to the same length: the shorter one is
/// subdivided up to the length of the longer one.
pub open spec fn normalize_spec(from: Seq<PathPoint>, to: Seq<PathPoint>) -> (
    Seq<PathPoint>,
    Seq<PathPoint>,
) {
    if from.len() < to.len() {
        (subdivide_spec(from, to.len()), to)
    } else if to.len() < from.len() {
        (from, subdivide_spec(to, from.len()))
    } else {
        (from, to)
    }
}

/// Two point lists blended index by index, as far as both reach.
pub open spec fn blend_points_spec(from: Seq<PathPoint>, to: Seq<PathPoint>, t: int) -> Seq<
    PathPoint,
> {
    Seq::new(
        if from.len() <= to.len() {
            from.len()
        } else {
            to.len()
        },
        |i: int| interpolate_path_point_spec(from[i], to[i], t),
    )
}

/// The path between two paths at progress `t`. It is closed as the first
/// path is before the half-way point, and as the second from there on.
pub open spec fn morph_spec(
    from_points: Seq<PathPoint>,
    from_closed: bool,
    to_points: Seq<PathPoint>,
    to_closed: bool,
    t: int,
) -> ShapeView {
    let (from_norm, to_norm) = normalize_spec(from_points, to_points);
    ShapeView::Path {
        points: blend_points_spec(from_norm, to_norm, t),
        closed: if t < HALF {
            from_closed
        } else {
            to_closed
        },
    }
}

/// The shape between two shapes at progress `t`. Shapes of one kind blend
/// field by field; two paths, or two shapes of different kinds that both
/// have a path, are morphed point by point; anything else holds the first
/// shape.
pub open spec fn interpolate_shape_spec(from: ShapeView, to: ShapeView, t: int) -> ShapeView {
    match (from, to) {
        (
            ShapeView::Rectangle { width: w0, height: h0, corner_radius: r0 },
            ShapeView::Rectangle { width: w1, height: h1, corner_radius: r1 },
        ) => ShapeView::Rectangle {
            width: lerp_spec(w0 as int, w1 as int, t) as i64,
            height: lerp_spec(h0 as int, h1 as int, t) as i64,
            corner_radius: lerp_spec(r0 as int, r1 as int, t) as i64,
        },
        (
            ShapeView::Ellipse { radius_x: x0, radius_y: y0 },
            ShapeView::Ellipse { radius_x: x1, radius_y: y1 },
        ) => ShapeView::Ellipse {
            radius_x: lerp_spec(x0 as int, x1 as int, t) as i64,
            radius_y: lerp_spec(y0 as int, y1 as int, t) as i64,
        },
        (
            ShapeView::Line { end_x: x0, end_y: y0 },
            ShapeView::Line { end_x: x1, end_y: y1 },
        ) => ShapeView::Line {
            end_x: lerp_spec(x0 as int, x1 as int, t) as i64,
            end_y: lerp_spec(y0 as int, y1 as int, t) as i64,
        },
        _ => match (shape_to_path_spec(from), shape_to_path_spec(to)) {
            (
                ShapeView::Path { points: first, closed: first_closed },
                ShapeView::Path { points: second, closed: second_closed },
            ) => morph_spec(first, first_closed, second, second_closed, t),
            _ => from,
        },
    }
}

/// The cosine of `k` sixteenths of a turn.
pub fn circle_cos(k: usize) -> (c: i64)
    ensures
        c == circle_cos_spec(k as int % 16),
{
    let k = k % 16;
    if k == 0 {
        1_000_000
    } else if k == 1 || k == 15 {
        923_880
    } else if k == 2 || k == 14 {
        707_107
    } else if k == 3 || k == 13 {
        382_683
    } else if k == 4 || k == 12 {
        0
    } else if k == 5 || k == 11 {
        -382_683
    } else if k == 6 || k == 10 {
        -707_107
    } else if k == 7 || k == 9 {
        -923_880
    } else {
        -1_000_000
    }
}

/// The sine of `k` sixteenths of a turn.
pub fn circle_sin(k: usize) -> (c: i64)
    ensures
        c == circle_sin_spec(k as int % 16),
{
    circle_cos(k % 16 + 12)
}

/// A point without handles, at full pressure.
pub fn corner(x: i64, y: i64) -> (p: PathPoint)
    ensures
        p == corner_spec(x as int, y as int),
{
    PathPoint { position: Vec2 { x, y }, control_in: None, control_out: None, pressure: ONE }
}

/// Turns a rectangle, an ellipse or a line into the path that stands for
/// it; any other shape is returned as it is.
pub fn shape_to_path(shape: &Shape) -> (r: Shape)
    ensures
        r@ == shape_to_path_spec(shape@),
{
    match shape {
        Shape::Rectangle { width, height, corner_radius: _ } => {
            let half_w: i64 = *width / 2;
            let half_h: i64 = *height / 2;
            let mut points: Vec<PathPoint> = Vec::new();
            points.push(corner(-half_w, -half_h));
            points.push(corner(half_w, -half_h));
            points.push(corner(half_w, half_h));
            points.push(corner(-half_w, half_h));
            assert(points@ =~= rectangle_points_spec(*width as int, *height as int));
            Shape::Path { points, closed: true }
        },
        Shape::Ellipse { radius_x, radius_y } => {
            let mut points: Vec<PathPoint> = Vec::new();
            let mut k: usize = 0;
            while k < ELLIPSE_SEGMENTS
                invariant
                    k <= ELLIPSE_SEGMENTS,
                    points@.len() == k,
                    forall|i: int|
                        0 <= i < k ==> points@[i] == ellipse_points_spec(
                            *radius_x as int,
                            *radius_y as int,
                        )[i],
                decreases ELLIPSE_SEGMENTS - k,
            {
                assert(k as int % 16 == k);
                let cos = circle_cos(k);
                let sin = circle_sin(k);
                points.push(corner(mul_fixed(cos, *radius_x), mul_fixed(sin, *radius_y)));
                k += 1;
            }
            assert(points@ =~= ellipse_points_spec(*radius_x as int, *radius_y as int));
            Shape::Path { points, closed: true }
        },
        Shape::Line { end_x, end_y } => {
            let mut points: Vec<PathPoint> = Vec::new();
            points.push(corner(0, 0));
            points.push(corner(*end_x, *end_y));
            assert(points@ =~= seq![corner_spec(0, 0), corner_spec(*end_x as int, *end_y as int)]);
            Shape::Path { points, closed: false }
        },
        _ => shape.clone(),
    }
}

/// Blends a handle that both points have; holds one that only one has.
pub fn interpolate_optional_point(from: Option<Vec2>, to: Option<Vec2>, t: i64) -> (r: Option<
    Vec2,
>)
    ensures
        r == interpolate_optional_point_spec(from, to, t as int),
{
    match from {
        Some(a) => match to {
            Some(b) => Some(lerp_vec2(a, b, t)),
            None => Some(a),
        },
        None => match to {
            Some(b) => Some(b),
            None => None,
        },
    }
}

/// Blends two path points: position, both handles and pressure.
pub fn interpolate_path_point(from: &PathPoint, to: &PathPoint, t: i64) -> (r: PathPoint)
    ensures
        r == interpolate_path_point_spec(*from, *to, t as int),
{
    PathPoint {
        position: lerp_vec2(from.position, to.position, t),
        control_in: interpolate_optional_point(from.control_in, to.control_in, t),
        control_out: interpolate_optional_point(from.control_out, to.control_out, t),
        pressure: lerp(from.pressure, to.pressure, t),
    }
}

proof fn lemma_square_fits(d: int)
    by (nonlinear_arith)
    requires
        -0x8000_0000_0000_0000 <= d <= 0x8000_0000_0000_0000,
    ensures
        0 <= d * d <= 0x4000_0000_0000_0000_0000_0000_0000_0000,
{
}

/// Measures an edge by the square of its length.
pub fn edge_length_squared(a: &PathPoint, b: &PathPoint) -> (r: u128)
    ensures
        r == edge_length_sq(*a, *b),
{
    let dx: i128 = crate::fixed::saturate_i128((b.position.x as i128) - (a.position.x as i128))
        as i128;
    let dy: i128 = crate::fixed::saturate_i128((b.position.y as i128) - (a.position.y as i128))
        as i128;
    proof {
        lemma_square_fits(dx as int);
        lemma_square_fits(dy as int);
    }
    ((dx * dx) as u128) + ((dy * dy) as u128)
}

/// Finds the first of the longest edges of a path; zero for a path
/// without edges.
pub fn longest_edge_index(points: &Vec<PathPoint>) -> (k: usize)
    ensures
        k == longest_edge(points@, points.len() - 1),
        points.len() >= 2 ==> k + 1 < points.len(),
{
    if points.len() < 2 {
        return 0;
    }
    let mut best: usize = 0;
    let mut best_len: u128 = edge_length_squared(&points[0], &points[1]);
    let mut index: usize = 1;
    while index < points.len() - 1
        invariant
            points.len() >= 2,
            1 <= index <= points.len() - 1,
            best < index,
            best == longest_edge(points@, index as int),
            best_len == edge_sq(points@, best as int),
        decreases points.len() - index,
    {
        let len = edge_length_squared(&points[index], &points[index + 1]);
        if len > best_len {
            best = index;
            best_len = len;
        }
        index += 1;
    }
    best
}

/// Adds midpoints to a path until it has `target_count` points.
pub fn subdivide_path_to_count(points: &Vec<PathPoint>, target_count: usize) -> (r: Vec<
    PathPoint,
>)
    ensures
        r@ == subdivide_spec(points@, target_count as nat),
        points.len() >= 2 && points.len() <= target_count ==> r.len() == target_count,
{
    let mut result = copy_points(points);
    if points.len() >= target_count || points.len() < 2 {
        return result;
    }
    while result.len() < target_count
        invariant
            2 <= result.len() <= target_count,
            subdivide_spec(result@, target_count as nat) == subdivide_spec(
                points@,
                target_count as nat,
            ),
        decreases target_count - result.len(),
    {
        let k = longest_edge_index(&result);
        let midpoint = interpolate_path_point(&result[k], &result[k + 1], HALF);
        result.insert(k + 1, midpoint);
    }
    result
}

/// Brings two point lists to the same length by subdividing the shorter.
pub fn normalize_path_points(from: &Vec<PathPoint>, to: &Vec<PathPoint>) -> (r: (
    Vec<PathPoint>,
    Vec<PathPoint>,
))
    ensures
        (r.0@, r.1@) == normalize_spec(from@, to@),
{
    if from.len() < to.len() {
        (subdivide_path_to_count(from, to.len()), copy_points(to))
    } else if to.len() < from.len() {
        (copy_points(from), subdivide_path_to_count(to, from.len()))
    } else {
        (copy_points(from), copy_points(to))
    }
}

/// Morphs one path into another.
pub fn morph_paths(
    from_points: &Vec<PathPoint>,
    from_closed: bool,
    to_points: &Vec<PathPoint>,
    to_closed: bool,
    t: i64,
) -> (r: Shape)
    ensures
        r@ == morph_spec(from_points@, from_closed, to_points@, to_closed, t as int),
{
    let (from_norm, to_norm) = normalize_path_points(from_points, to_points);
    let count: usize = if from_norm.len() <= to_norm.len() {
        from_norm.len()
    } else {
        to_norm.len()
    };
    let mut points: Vec<PathPoint> = Vec::new();
    let mut i: usize = 0;
    while i < count
        invariant
            i <= count,
            count <= from_norm.len(),
            count <= to_norm.len(),
            points@.len() == i,
            forall|j: int|
                0 <= j < i ==> points@[j] == interpolate_path_point_spec(
                    from_norm@[j],
                    to_norm@[j],
                    t as int,
                ),
        decreases count - i,
    {
        points.push(interpolate_path_point(&from_norm[i], &to_norm[i], t));
        i += 1;
    }
    assert(points@ =~= blend_points_spec(from_norm@, to_norm@, t as int));
    let closed = if t < HALF {
        from_closed
    } else {
        to_closed
    };
    Shape::Path { points, closed }
}

/// Morphs two shapes through the paths that stand for them; holds the
/// first shape where either has none.
fn morph_across_kinds(from: &Shape, to: &Shape, t: i64) -> (r: Shape)
    ensures
        r@ == (match (shape_to_path_spec(from@), shape_to_path_spec(to@)) {
            (
                ShapeView::Path { points: first, closed: first_closed },
                ShapeView::Path { points: second, closed: second_closed },
            ) => morph_spec(first, first_closed, second, second_closed, t as int),
            _ => from@,
        }),
{
    let from_path = shape_to_path(from);
    let to_path = shape_to_path(to);
    match &from_path {
        Shape::Path { points: first, closed: first_closed } => match &to_path {
            Shape::Path { points: second, closed: second_closed } => {
                morph_paths(first, *first_closed, second, *second_closed, t)
            },
            _ => from.clone(),
        },
        _ => from.clone(),
    }
}

/// Interpolates between two shapes.
pub fn interpolate_shape(from: &Shape, to: &Shape, t: i64) -> (r: Shape)
    ensures
        r@ == interpolate_shape_spec(from@, to@, t as int),
{
    match from {
        Shape::Rectangle { width: w0, height: h0, corner_radius: r0 } => match to {
            Shape::Rectangle { width: w1, height: h1, corner_radius: r1 } => Shape::Rectangle {
                width: lerp(*w0, *w1, t),
                height: lerp(*h0, *h1, t),
                corner_radius: lerp(*r0, *r1, t),
            },
            _ => morph_across_kinds(from, to, t),
        },
        Shape::Ellipse { radius_x: x0, radius_y: y0 } => match to {
            Shape::Ellipse { radius_x: x1, radius_y: y1 } => Shape::Ellipse {
                radius_x: lerp(*x0, *x1, t),
                radius_y: lerp(*y0, *y1, t),
            },
            _ => morph_across_kinds(from, to, t),
        },
        Shape::Line { end_x: x0, end_y: y0 } => match to {
            Shape::Line { end_x: x1, end_y: y1 } => Shape::Line {
                end_x: lerp(*x0, *x1, t),
                end_y: lerp(*y0, *y1, t),
            },
            _ => morph_across_kinds(from, to, t),
        },
        _ => morph_across_kinds(from, to, t),
    }
}

/// The first of the longest edges is at least as long as every edge, and
/// longer than every edge before it.
pub proof fn lemma_longest_edge_is_longest(points: Seq<PathPoint>, edges: int, i: int)
    requires
        0 <= i < edges,
    ensures
        edge_sq(points, i) <= edge_sq(points, longest_edge(points, edges)),
        i < longest_edge(points, edges) ==> edge_sq(points, i) < edge_sq(
            points,
            longest_edge(points, edges),
        ),
    decreases edges,
{
    lemma_longest_edge_range(points, edges);
    if edges > 1 {
        lemma_longest_edge_range(points, edges - 1);
        if i < edges - 1 {
            lemma_longest_edge_is_longest(points, edges - 1, i);
        }
    }
}

/// Subdividing a path of at least two points reaches the target count.
pub proof fn lemma_subdivide_len(points: Seq<PathPoint>, target: nat)
    requires
        2 <= points.len() <= target,
    ensures
        subdivide_spec(points, target).len() == target,
    decreases target - points.len(),
{
    if points.len() < target {
        let k = longest_edge(points, points.len() - 1);
        lemma_longest_edge_range(points, points.len() - 1);
        lemma_subdivide_len(
            points.insert(k + 1, interpolate_path_point_spec(points[k], points[k + 1], HALF as int)),
            target,
        );
    }
}

/// Subdividing keeps the first and the last point where they are.
pub proof fn lemma_subdivide_keeps_ends(points: Seq<PathPoint>, target: nat)
    requires
        2 <= points.len() <= target,
    ensures
        subdivide_spec(points, target).first() == points.first(),
        subdivide_spec(points, target).last() == points.last(),
    decreases target - points.len(),
{
    lemma_subdivide_len(points, target);
    if points.len() < target {
        let k = longest_edge(points, points.len() - 1);
        lemma_longest_edge_range(points, points.len() - 1);
        let next = points.insert(
            k + 1,
            interpolate_path_point_spec(points[k], points[k + 1], HALF as int),
        );
        lemma_subdivide_keeps_ends(next, target);
        lemma_subdivide_len(next, target);
    }
}

/// A blend of two point lists starts at the positions and pressures of
/// the first and ends at those of the second.
pub proof fn lemma_blend_endpoints(from: Seq<PathPoint>, to: Seq<PathPoint>, i: int)
    requires
        0 <= i < from.len(),
        i < to.len(),
    ensures
        blend_points_spec(from, to, 0)[i].position == from[i].position,
        blend_points_spec(from, to, 0)[i].pressure == from[i].pressure,
        blend_points_spec(from, to, ONE as int)[i].position == to[i].position,
        blend_points_spec(from, to, ONE as int)[i].pressure == to[i].pressure,
{
    lemma_lerp_endpoints(from[i].position.x, to[i].position.x);
    lemma_lerp_endpoints(from[i].position.y, to[i].position.y);
    lemma_lerp_endpoints(from[i].pressure, to[i].pressure);
}

/// Path normalization round trip: a morph between two paths of at least
/// two points each has as many points as the longer path; at progress
/// zero its points are at the positions of the normalized first path,
/// which is the first path itself unless it is the shorter one; at
/// progress `ONE` they are at the positions of the normalized second
/// path, which is the second path itself unless it is the shorter one.
pub proof fn lemma_morph_round_trip(
    from_points: Seq<PathPoint>,
    from_closed: bool,
    to_points: Seq<PathPoint>,
    to_closed: bool,
    i: int,
)
    requires
        from_points.len() >= 2,
        to_points.len() >= 2,
        0 <= i < from_points.len() || 0 <= i < to_points.len(),
    ensures
        normalize_spec(from_points, to_points).0.len() == normalize_spec(
            from_points,
            to_points,
        ).1.len(),
        from_points.len() >= to_points.len() ==> normalize_spec(from_points, to_points).0
            == from_points,
        to_points.len() >= from_points.len() ==> normalize_spec(from_points, to_points).1
            == to_points,
        morph_spec(from_points, from_closed, to_points, to_closed, 0) matches ShapeView::Path {
            points,
            closed,
        } && closed == from_closed && points.len() == normalize_spec(from_points, to_points).0.len()
            && points[i].position == normalize_spec(from_points, to_points).0[i].position,
        morph_spec(
            from_points,
            from_closed,
            to_points,
            to_closed,
            ONE as int,
        ) matches ShapeView::Path { points, closed } && closed == to_closed && points.len()
            == normalize_spec(from_points, to_points).1.len() && points[i].position
            == normalize_spec(from_points, to_points).1[i].position,
{
    if from_points.len() < to_points.len() {
        lemma_subdivide_len(from_points, to_points.len());
    } else if to_points.len() < from_points.len() {
        lemma_subdivide_len(to_points, from_points.len());
    }
    let (from_norm, to_norm) = normalize_spec(from_points, to_points);
    lemma_blend_endpoints(from_norm, to_norm, i);
}

} // verus!

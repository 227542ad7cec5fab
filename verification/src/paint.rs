//! Paints: solid colours and gradients, and how they blend.
use vstd::prelude::*;
use crate::fixed::{div_fixed, div_spec, lerp, lerp_spec, saturate, saturate_i128, ONE};
use crate::geometry::Vec2;

verus! {

/// A colour: red, green, blue and opacity, each a fixed-point scalar
/// (nominally between zero and [`ONE`]).
#[derive(Clone, Copy, Debug, PartialEq, Eq, Structural)]
pub struct Color {
    pub r: i64,
    pub g: i64,
    pub b: i64,
    pub a: i64,
}

/// One stop of a gradient.
#[derive(Clone, Copy, Debug, PartialEq, Eq, Structural)]
pub struct GradientStop {
    pub offset: i64,
    pub color: Color,
}

/// How a fill or a stroke is painted.
#[derive(Debug, PartialEq, Eq)]
pub enum Paint {
    Solid(Color),
    LinearGradient { start: Vec2, end: Vec2, stops: Vec<GradientStop> },
    RadialGradient { center: Vec2, radius: i64, stops: Vec<GradientStop> },
}

/// The mathematical value of a [`Paint`].
pub ghost enum PaintView {
    Solid(Color),
    LinearGradient { start: Vec2, end: Vec2, stops: Seq<GradientStop> },
    RadialGradient { center: Vec2, radius: i64, stops: Seq<GradientStop> },
}

impl View for Paint {
    type V = PaintView;

    open spec fn view(&self) -> PaintView {
        match *self {
            Paint::Solid(color) => PaintView::Solid(color),
            Paint::LinearGradient { start, end, stops } => PaintView::LinearGradient {
                start,
                end,
                stops: stops@,
            },
            Paint::RadialGradient { center, radius, stops } => PaintView::RadialGradient {
                center,
                radius,
                stops: stops@,
            },
        }
    }
}

/// Opaque black, the colour of a paint that has none of its own.
pub open spec fn black() -> Color {
    Color { r: 0, g: 0, b: 0, a: ONE }
}

/// The single colour that stands for a paint: a solid's own colour, a
/// gradient's first stop, opaque black for a gradient without stops.
pub open spec fn as_solid_spec(paint: PaintView) -> Color {
    match paint {
        PaintView::Solid(color) => color,
        PaintView::LinearGradient { stops, .. } => if stops.len() > 0 {
            stops[0].color
        } else {
            black()
        },
        PaintView::RadialGradient { stops, .. } => if stops.len() > 0 {
            stops[0].color
        } else {
            black()
        },
    }
}

/// Each channel of `a` moved a fraction `t` of the way to that of `b`.
pub open spec fn lerp_color_spec(a: Color, b: Color, t: int) -> Color {
    Color {
        r: lerp_spec(a.r as int, b.r as int, t) as i64,
        g: lerp_spec(a.g as int, b.g as int, t) as i64,
        b: lerp_spec(a.b as int, b.b as int, t) as i64,
        a: lerp_spec(a.a as int, b.a as int, t) as i64,
    }
}

/// The blend of two paints: always a solid, between their representative
/// colours.
pub open spec fn lerp_paint_spec(from: PaintView, to: PaintView, t: int) -> PaintView {
    PaintView::Solid(lerp_color_spec(as_solid_spec(from), as_solid_spec(to), t))
}

/// Copies a list of gradient stops.
pub fn copy_stops(stops: &Vec<GradientStop>) -> (r: Vec<GradientStop>)
    ensures
        r@ == stops@,
{
    let mut out: Vec<GradientStop> = Vec::new();
    let mut i: usize = 0;
    while i < stops.len()
        invariant
            i <= stops.len(),
            out@ == stops@.subrange(0, i as int),
        decreases stops.len() - i,
    {
        out.push(stops[i]);
        i += 1;
    }
    out
}

impl Clone for Paint {
    fn clone(&self) -> (r: Self)
        ensures
            r@ == self@,
    {
        match self {
            Paint::Solid(color) => Paint::Solid(*color),
            Paint::LinearGradient { start, end, stops } => Paint::LinearGradient {
                start: *start,
                end: *end,
                stops: copy_stops(stops),
            },
            Paint::RadialGradient { center, radius, stops } => Paint::RadialGradient {
                center: *center,
                radius: *radius,
                stops: copy_stops(stops),
            },
        }
    }
}

impl Default for Paint {
    fn default() -> (r: Self)
        ensures
            r@ == PaintView::Solid(black()),
    {
        Paint::Solid(Color { r: 0, g: 0, b: 0, a: ONE })
    }
}

impl Paint {
    /// The colour that stands for this paint wherever a single colour is
    /// needed.
    pub fn as_solid(&self) -> (c: Color)
        ensures
            c == as_solid_spec(self@),
    {
        match self {
            Paint::Solid(color) => *color,
            Paint::LinearGradient { stops, .. } => {
                if stops.len() > 0 {
                    stops[0].color
                } else {
                    Color { r: 0, g: 0, b: 0, a: ONE }
                }
            },
            Paint::RadialGradient { stops, .. } => {
                if stops.len() > 0 {
                    stops[0].color
                } else {
                    Color { r: 0, g: 0, b: 0, a: ONE }
                }
            },
        }
    }
}

/// Interpolates the four channels independently.
pub fn lerp_color(a: Color, b: Color, t: i64) -> (c: Color)
    ensures
        c == lerp_color_spec(a, b, t as int),
{
    Color {
        r: lerp(a.r, b.r, t),
        g: lerp(a.g, b.g, t),
        b: lerp(a.b, b.b, t),
        a: lerp(a.a, b.a, t),
    }
}

/// Blends two paints. Gradients are not morphed stop by stop: each side is
/// first reduced to its representative colour.
pub fn lerp_paint(from: &Paint, to: &Paint, t: i64) -> (r: Paint)
    ensures
        r@ == lerp_paint_spec(from@, to@, t as int),
{
    Paint::Solid(lerp_color(from.as_solid(), to.as_solid(), t))
}

/// The first stop from position `start` on whose offset is at or after
/// `position`; the number of stops if there is none.
pub open spec fn first_stop_at_or_after(stops: Seq<GradientStop>, position: int, start: int) -> int
    decreases stops.len() - start,
{
    if start < 0 || start >= stops.len() {
        stops.len() as int
    } else if position <= stops[start].offset {
        start
    } else {
        first_stop_at_or_after(stops, position, start + 1)
    }
}

/// The colour of a gradient at `position`: opaque black without stops;
/// the first stop's colour at or before its offset; the last stop's at or
/// after its offset; in between, the blend of the two stops around
/// `position`, or the later one's colour where the two coincide.
pub open spec fn sample_gradient_spec(stops: Seq<GradientStop>, position: int) -> Color {
    if stops.len() == 0 {
        black()
    } else if stops.len() == 1 || position <= stops[0].offset {
        stops[0].color
    } else if position >= stops.last().offset {
        stops.last().color
    } else {
        let i = first_stop_at_or_after(stops, position, 1);
        let prev = stops[i - 1];
        let next = stops[i];
        let range = saturate(next.offset - prev.offset);
        if range <= 0 {
            next.color
        } else {
            lerp_color_spec(
                prev.color,
                next.color,
                div_spec(saturate(position - prev.offset), range),
            )
        }
    }
}

/// The colour of a paint at `position` along its gradient; a solid has
/// one colour everywhere.
pub open spec fn sample_at_spec(paint: PaintView, position: int) -> Color {
    match paint {
        PaintView::Solid(color) => color,
        PaintView::LinearGradient { stops, .. } => sample_gradient_spec(stops, position),
        PaintView::RadialGradient { stops, .. } => sample_gradient_spec(stops, position),
    }
}

/// Samples a list of gradient stops at `position`.
pub fn sample_gradient(stops: &Vec<GradientStop>, position: i64) -> (c: Color)
    ensures
        c == sample_gradient_spec(stops@, position as int),
{
    if stops.len() == 0 {
        return Color { r: 0, g: 0, b: 0, a: ONE };
    }
    if stops.len() == 1 || position <= stops[0].offset {
        return stops[0].color;
    }
    let last = stops.len() - 1;
    if position >= stops[last].offset {
        return stops[last].color;
    }
    let mut index: usize = 1;
    while position > stops[index].offset
        invariant
            1 <= index <= last,
            last == stops.len() - 1,
            position < stops[last as int].offset,
            first_stop_at_or_after(stops@, position as int, index as int) == first_stop_at_or_after(
                stops@,
                position as int,
                1,
            ),
        decreases stops.len() - index,
    {
        index += 1;
    }
    let prev = stops[index - 1];
    let next = stops[index];
    let range = saturate_i128((next.offset as i128) - (prev.offset as i128));
    if range <= 0 {
        return next.color;
    }
    let along = saturate_i128((position as i128) - (prev.offset as i128));
    lerp_color(prev.color, next.color, div_fixed(along, range))
}

impl Paint {
    /// The colour of this paint at `position` along its gradient.
    pub fn sample_at(&self, position: i64) -> (c: Color)
        ensures
            c == sample_at_spec(self@, position as int),
    {
        match self {
            Paint::Solid(color) => *color,
            Paint::LinearGradient { stops, .. } => sample_gradient(stops, position),
            Paint::RadialGradient { stops, .. } => sample_gradient(stops, position),
        }
    }
}

} // verus!

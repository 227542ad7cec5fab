//! Two-dimensional points and their per-axis interpolation.
use vstd::prelude::*;
use crate::fixed::{lerp, lerp_spec};

verus! {

/// A point or an extent in the plane, each axis a fixed-point scalar.
#[derive(Clone, Copy, Debug, PartialEq, Eq, Structural)]
pub struct Vec2 {
    pub x: i64,
    pub y: i64,
}

/// Each axis of `a` moved a fraction `t` of the way to the same axis of `b`.
pub open spec fn lerp_vec2_spec(a: Vec2, b: Vec2, t: int) -> Vec2 {
    Vec2 {
        x: lerp_spec(a.x as int, b.x as int, t) as i64,
        y: lerp_spec(a.y as int, b.y as int, t) as i64,
    }
}

/// Interpolates the two axes independently.
pub fn lerp_vec2(a: Vec2, b: Vec2, t: i64) -> (r: Vec2)
    ensures
        r == lerp_vec2_spec(a, b, t as int),
{
    Vec2 { x: lerp(a.x, b.x, t), y: lerp(a.y, b.y, t) }
}

} // verus!

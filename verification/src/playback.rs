//! Playback: which frame follows which, and which neighbouring frames are
//! shown as onion skins.
use vstd::prelude::*;
use crate::fixed::{div_fixed, div_spec, ONE};
use crate::paint::Color;

verus! {

/// The frame that playback shows after `current`. Inside a loop region
/// playback returns to its start once it has passed its end; without one
/// it returns to frame zero once it has reached the length of the project.
pub open spec fn next_frame_spec(
    current: u32,
    total_frames: u32,
    loop_start: Option<u32>,
    loop_end: Option<u32>,
) -> u32 {
    match (loop_start, loop_end) {
        (Some(start), Some(end)) => if current + 1 > end {
            start
        } else {
            (current + 1) as u32
        },
        _ => if current + 1 >= total_frames {
            0
        } else {
            (current + 1) as u32
        },
    }
}

/// Steps playback by one frame.
pub fn next_frame(
    current: u32,
    total_frames: u32,
    loop_start: Option<u32>,
    loop_end: Option<u32>,
) -> (next: u32)
    ensures
        next == next_frame_spec(current, total_frames, loop_start, loop_end),
{
    let stepped: u64 = current as u64 + 1;
    match loop_start {
        Some(start) => match loop_end {
            Some(end) => {
                if stepped > end as u64 {
                    start
                } else {
                    stepped as u32
                }
            },
            None => {
                if stepped >= total_frames as u64 {
                    0
                } else {
                    stepped as u32
                }
            },
        },
        None => {
            if stepped >= total_frames as u64 {
                0
            } else {
                stepped as u32
            }
        },
    }
}

/// Without a loop region playback stays below the length of the project.
pub proof fn lemma_next_frame_in_range(current: u32, total_frames: u32)
    requires
        total_frames > 0,
    ensures
        next_frame_spec(current, total_frames, None, None) < total_frames,
{
}

/// Inside a loop region that playback has entered it stays inside.
pub proof fn lemma_next_frame_in_loop(current: u32, total_frames: u32, start: u32, end: u32)
    requires
        start <= current <= end,
    ensures
        start <= next_frame_spec(current, total_frames, Some(start), Some(end)) <= end,
{
}

/// Which neighbouring frames are drawn faintly around the current one.
#[derive(Clone, Copy, Debug, PartialEq, Eq, Structural)]
pub struct OnionSkinning {
    pub enabled: bool,
    pub frames_before: u32,
    pub frames_after: u32,
}

/// One onion skin: the frame to draw and the tint to draw it in.
#[derive(Clone, Copy, Debug, PartialEq, Eq, Structural)]
pub struct GhostFrame {
    pub frame: u32,
    pub tint: Color,
}

/// The opacity of the onion skin `offset` frames away: three tenths,
/// divided by the distance.
pub open spec fn ghost_alpha_spec(offset: u32) -> int {
    div_spec(300_000, offset * ONE)
}

/// The tint of an earlier frame: red.
pub open spec fn tint_before_spec(offset: u32) -> Color {
    Color { r: ONE, g: 300_000, b: 300_000, a: ghost_alpha_spec(offset) as i64 }
}

/// The tint of a later frame: green.
pub open spec fn tint_after_spec(offset: u32) -> Color {
    Color { r: 300_000, g: ONE, b: 300_000, a: ghost_alpha_spec(offset) as i64 }
}

/// The onion skins before the current frame, for the distances from one
/// to `upto`: nearest first, as far as frame zero.
pub open spec fn ghosts_before_spec(current: u32, upto: int) -> Seq<GhostFrame>
    decreases upto,
{
    if upto <= 0 {
        Seq::<GhostFrame>::empty()
    } else {
        ghosts_before_spec(current, upto - 1) + (if current < upto {
            Seq::<GhostFrame>::empty()
        } else {
            seq![GhostFrame { frame: (current - upto) as u32, tint: tint_before_spec(upto as u32) }]
        })
    }
}

/// The onion skins after the current frame, for the distances from one to
/// `upto`: nearest first, as far as the project reaches.
pub open spec fn ghosts_after_spec(current: u32, total_frames: u32, upto: int) -> Seq<GhostFrame>
    decreases upto,
{
    if upto <= 0 {
        Seq::<GhostFrame>::empty()
    } else {
        ghosts_after_spec(current, total_frames, upto - 1) + (if current + upto >= total_frames {
            Seq::<GhostFrame>::empty()
        } else {
            seq![GhostFrame { frame: (current + upto) as u32, tint: tint_after_spec(upto as u32) }]
        })
    }
}

/// All onion skins around `current`: none when onion skinning is off;
/// otherwise the earlier frames, then the later ones.
pub open spec fn ghost_frames_spec(onion: OnionSkinning, current: u32, total_frames: u32) -> Seq<
    GhostFrame,
> {
    if onion.enabled {
        ghosts_before_spec(current, onion.frames_before as int) + ghosts_after_spec(
            current,
            total_frames,
            onion.frames_after as int,
        )
    } else {
        Seq::<GhostFrame>::empty()
    }
}

impl Default for OnionSkinning {
    /// Off, with two frames on either side.
    fn default() -> (r: Self)
        ensures
            r == (OnionSkinning { enabled: false, frames_before: 2, frames_after: 2 }),
    {
        OnionSkinning { enabled: false, frames_before: 2, frames_after: 2 }
    }
}

/// The opacity of the onion skin `offset` frames away.
pub fn ghost_alpha(offset: u32) -> (alpha: i64)
    requires
        offset > 0,
    ensures
        alpha == ghost_alpha_spec(offset),
{
    div_fixed(300_000, (offset as i64) * ONE)
}

impl OnionSkinning {
    /// Lists the onion skins to draw around `current`.
    pub fn ghost_frames(&self, current: u32, total_frames: u32) -> (ghosts: Vec<GhostFrame>)
        ensures
            ghosts@ == ghost_frames_spec(*self, current, total_frames),
    {
        let mut ghosts: Vec<GhostFrame> = Vec::new();
        if !self.enabled {
            return ghosts;
        }
        let mut offset: u32 = 0;
        while offset < self.frames_before
            invariant
                offset <= self.frames_before,
                ghosts@ == ghosts_before_spec(current, offset as int),
            decreases self.frames_before - offset,
        {
            offset += 1;
            let ghost so_far = ghosts@;
            if current >= offset {
                ghosts.push(
                    GhostFrame {
                        frame: current - offset,
                        tint: Color { r: ONE, g: 300_000, b: 300_000, a: ghost_alpha(offset) },
                    },
                );
            } else {
                assert(ghosts@ =~= so_far + Seq::<GhostFrame>::empty());
            }
        }
        let ghost earlier = ghosts@;
        assert(ghosts@ =~= earlier + ghosts_after_spec(current, total_frames, 0));
        let mut offset: u32 = 0;
        while offset < self.frames_after
            invariant
                offset <= self.frames_after,
                ghosts@ == earlier + ghosts_after_spec(current, total_frames, offset as int),
            decreases self.frames_after - offset,
        {
            offset += 1;
            let ghost so_far = ghosts@;
            if (current as u64) + (offset as u64) < total_frames as u64 {
                ghosts.push(
                    GhostFrame {
                        frame: current + offset,
                        tint: Color { r: 300_000, g: ONE, b: 300_000, a: ghost_alpha(offset) },
                    },
                );
                assert(ghosts@ =~= earlier + ghosts_after_spec(
                    current,
                    total_frames,
                    offset as int,
                ));
            } else {
                assert(ghosts@ =~= earlier + ghosts_after_spec(
                    current,
                    total_frames,
                    offset as int,
                ));
            }
        }
        ghosts
    }
}

} // verus!

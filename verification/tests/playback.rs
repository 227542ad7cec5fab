use animate::fixed::ONE;
use animate::paint::Color;
use animate::playback::{ghost_alpha, next_frame, GhostFrame, OnionSkinning};

#[test]
fn playback_wraps_at_the_end_of_the_project() {
    assert_eq!(next_frame(0, 120, None, None), 1);
    assert_eq!(next_frame(118, 120, None, None), 119);
    assert_eq!(next_frame(119, 120, None, None), 0);
    assert_eq!(next_frame(500, 120, None, None), 0);
    assert_eq!(next_frame(0, 0, None, None), 0);
    assert_eq!(next_frame(u32::MAX, u32::MAX, None, None), 0);
    assert_eq!(next_frame(u32::MAX - 1, u32::MAX, None, None), 0);
}

#[test]
fn playback_loops_inside_a_loop_region() {
    assert_eq!(next_frame(10, 120, Some(10), Some(20)), 11);
    assert_eq!(next_frame(19, 120, Some(10), Some(20)), 20);
    assert_eq!(next_frame(20, 120, Some(10), Some(20)), 10);
    assert_eq!(next_frame(50, 120, Some(10), Some(20)), 10);
    assert_eq!(next_frame(3, 120, Some(10), Some(20)), 4);
    assert_eq!(next_frame(u32::MAX, 120, Some(10), Some(u32::MAX)), 10);
    // Inside a loop region the length of the project does not matter.
    assert_eq!(next_frame(119, 120, Some(100), Some(200)), 120);
}

#[test]
fn half_a_loop_region_is_none() {
    assert_eq!(next_frame(119, 120, Some(100), None), 0);
    assert_eq!(next_frame(119, 120, None, Some(110)), 0);
    assert_eq!(next_frame(5, 120, None, Some(5)), 6);
}

#[test]
fn onion_skinning_is_off_by_default() {
    let onion = OnionSkinning::default();
    assert_eq!(onion, OnionSkinning { enabled: false, frames_before: 2, frames_after: 2 });
    assert!(onion.ghost_frames(10, 120).is_empty());
}

#[test]
fn ghost_opacity_falls_with_distance() {
    assert_eq!(ghost_alpha(1), 300_000);
    assert_eq!(ghost_alpha(2), 150_000);
    assert_eq!(ghost_alpha(3), 100_000);
    assert_eq!(ghost_alpha(7), 42_857);
    assert_eq!(ghost_alpha(u32::MAX), 0);
}

#[test]
fn ghost_frames_around_the_current_frame() {
    let onion = OnionSkinning { enabled: true, frames_before: 2, frames_after: 3 };
    let red = |a| Color { r: ONE, g: 300_000, b: 300_000, a };
    let green = |a| Color { r: 300_000, g: ONE, b: 300_000, a };
    assert_eq!(
        onion.ghost_frames(10, 120),
        vec![
            GhostFrame { frame: 9, tint: red(300_000) },
            GhostFrame { frame: 8, tint: red(150_000) },
            GhostFrame { frame: 11, tint: green(300_000) },
            GhostFrame { frame: 12, tint: green(150_000) },
            GhostFrame { frame: 13, tint: green(100_000) },
        ]
    );
}

#[test]
fn ghost_frames_stop_at_the_ends_of_the_project() {
    let onion = OnionSkinning { enabled: true, frames_before: 3, frames_after: 3 };
    let frames = |current, total| -> Vec<u32> {
        onion.ghost_frames(current, total).iter().map(|g| g.frame).collect()
    };
    assert_eq!(frames(0, 120), vec![1, 2, 3]);
    assert_eq!(frames(1, 120), vec![0, 2, 3, 4]);
    assert_eq!(frames(118, 120), vec![117, 116, 115, 119]);
    assert_eq!(frames(119, 120), vec![118, 117, 116]);
    assert_eq!(frames(u32::MAX, u32::MAX), vec![u32::MAX - 1, u32::MAX - 2, u32::MAX - 3]);
    assert_eq!(frames(5, 0), vec![4, 3, 2]);
    let none = OnionSkinning { enabled: true, frames_before: 0, frames_after: 0 };
    assert!(none.ghost_frames(5, 120).is_empty());
}

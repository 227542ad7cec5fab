use animate::camera::{apply_camera_easing, pose_of, resolve_camera, ResolvedCamera};
use animate::easing::TweenType;
use animate::fixed::{HALF, ONE, PI, TWO_PI};
use animate::geometry::Vec2;
use animate::project::{CameraKeyframe, Project};

fn pose(x: i64, y: i64, zoom: i64, rotation: i64) -> CameraKeyframe {
    CameraKeyframe { position: Vec2 { x: x * ONE, y: y * ONE }, zoom, rotation }
}

fn resolved(x: i64, y: i64, zoom: i64, rotation: i64) -> ResolvedCamera {
    ResolvedCamera { position: Vec2 { x: x * ONE, y: y * ONE }, zoom, rotation }
}

fn project(tween: TweenType, keys: Vec<(u32, CameraKeyframe)>) -> Project {
    let mut p = Project::default();
    p.camera_tween = tween;
    for (frame, key) in keys {
        p.camera_keyframes.insert(frame, key);
    }
    p
}

#[test]
fn default_pose_without_keys() {
    let p = Project::default();
    for f in [0, 1, 100, u32::MAX] {
        assert_eq!(resolve_camera(&p, f), resolved(0, 0, ONE, 0));
    }
    assert_eq!(ResolvedCamera::default(), resolved(0, 0, ONE, 0));
}

#[test]
fn before_the_first_key_the_first_pose_is_used() {
    let p = project(TweenType::Linear, vec![(5, pose(1, 2, 2 * ONE, 3)), (9, pose(9, 9, ONE, 0))]);
    assert_eq!(resolve_camera(&p, 0), resolved(1, 2, 2 * ONE, 3));
    assert_eq!(resolve_camera(&p, 4), resolved(1, 2, 2 * ONE, 3));
}

#[test]
fn exact_at_a_key() {
    let p = project(TweenType::EaseIn, vec![(5, pose(1, 2, 2 * ONE, 3)), (9, pose(9, 9, ONE, 0))]);
    assert_eq!(resolve_camera(&p, 5), resolved(1, 2, 2 * ONE, 3));
    assert_eq!(resolve_camera(&p, 9), resolved(9, 9, ONE, 0));
    assert_eq!(pose_of(&pose(1, 2, 2 * ONE, 3)), resolved(1, 2, 2 * ONE, 3));
}

#[test]
fn without_tween_the_pose_is_held() {
    let p = project(TweenType::Hold, vec![(0, pose(0, 0, ONE, 0)), (10, pose(100, 0, ONE, 0))]);
    assert_eq!(resolve_camera(&p, 5), resolved(0, 0, ONE, 0));
    assert_eq!(resolve_camera(&p, 10), resolved(100, 0, ONE, 0));
}

#[test]
fn between_keys_the_pose_is_blended() {
    let p = project(
        TweenType::Linear,
        vec![(0, pose(0, 100, ONE, 0)), (10, pose(100, 0, 3 * ONE, PI / 2))],
    );
    assert_eq!(resolve_camera(&p, 5), resolved(50, 50, 2 * ONE, PI / 4));
    let p = project(
        TweenType::EaseIn,
        vec![(0, pose(0, 100, ONE, 0)), (10, pose(100, 0, 3 * ONE, 0))],
    );
    assert_eq!(resolve_camera(&p, 5), resolved(25, 75, 1_500_000, 0));
}

#[test]
fn camera_rotation_takes_the_shortest_arc() {
    let p = project(
        TweenType::Linear,
        vec![(0, pose(0, 0, ONE, TWO_PI - 174_533)), (10, pose(0, 0, ONE, 174_533))],
    );
    assert_eq!(resolve_camera(&p, 5).rotation, TWO_PI);
}

#[test]
fn past_the_last_key_the_pose_is_held() {
    let p = project(TweenType::Linear, vec![(0, pose(0, 0, ONE, 0)), (10, pose(100, 0, ONE, 0))]);
    assert_eq!(resolve_camera(&p, 11), resolved(100, 0, ONE, 0));
    assert_eq!(resolve_camera(&p, u32::MAX), resolved(100, 0, ONE, 0));
}

#[test]
fn custom_curve_for_the_camera() {
    let tween = TweenType::CubicBezier { x1: 250_000, y1: 100_000, x2: 250_000, y2: ONE };
    let p = project(tween, vec![(0, pose(0, 0, ONE, 0)), (10, pose(100, 0, ONE, 0))]);
    assert_eq!(resolve_camera(&p, 5).position.x, 80_240_400);
    assert_eq!(apply_camera_easing(HALF, tween), 802_404);
    assert_eq!(apply_camera_easing(HALF, TweenType::EaseInOut), HALF);
    assert_eq!(apply_camera_easing(HALF, TweenType::EaseOut), 750_000);
    assert_eq!(apply_camera_easing(123, TweenType::Hold), 123);
}

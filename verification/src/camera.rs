//! The camera: one pose for the whole project, resolved from its own
//! timeline of keys.
use vstd::prelude::*;
use crate::easing::{apply_easing, easing_spec, TweenType};
use crate::fixed::{lerp, lerp_angle, lerp_angle_spec, lerp_spec, ONE};
use crate::geometry::{lerp_vec2, lerp_vec2_spec, Vec2};
use crate::project::{CameraKeyframe, Project};
use crate::timeline::{first_key, floor_key, next_key};
use crate::tween::{eased_progress, eased_progress_spec};

verus! {

/// The pose of the camera at a frame.
#[derive(Clone, Copy, Debug, PartialEq, Eq, Structural)]
pub struct ResolvedCamera {
    pub position: Vec2,
    pub zoom: i64,
    pub rotation: i64,
}

/// The pose of a camera that was never moved: at the origin, at zoom one,
/// unrotated.
pub open spec fn default_camera() -> ResolvedCamera {
    ResolvedCamera { position: Vec2 { x: 0, y: 0 }, zoom: ONE, rotation: 0 }
}

/// The pose that a camera key holds.
pub open spec fn pose_spec(key: CameraKeyframe) -> ResolvedCamera {
    ResolvedCamera { position: key.position, zoom: key.zoom, rotation: key.rotation }
}

/// The pose between two camera keys at the eased progress `t`: position
/// and zoom blended linearly, rotation along the shorter arc.
pub open spec fn blend_pose_spec(from: CameraKeyframe, to: CameraKeyframe, t: int) -> ResolvedCamera {
    ResolvedCamera {
        position: lerp_vec2_spec(from.position, to.position, t),
        zoom: lerp_spec(from.zoom as int, to.zoom as int, t) as i64,
        rotation: lerp_angle_spec(from.rotation as int, to.rotation as int, t) as i64,
    }
}

/// The pose of the camera at `frame`: the default pose without keys; the
/// first key's pose before it; the pose of the key at or before `frame`
/// where that key is at `frame`, the camera is not eased, or the key is
/// the last; otherwise the blend of that key and the next.
pub open spec fn resolve_camera_spec(
    keys: Map<u32, CameraKeyframe>,
    tween: TweenType,
    frame: u32,
) -> ResolvedCamera {
    match floor_key(keys.dom(), frame) {
        None => match first_key(keys.dom()) {
            None => default_camera(),
            Some(first) => pose_spec(keys[first]),
        },
        Some(prev) => {
            if prev == frame || tween is Hold {
                pose_spec(keys[prev])
            } else {
                match next_key(keys.dom(), frame) {
                    None => pose_spec(keys[prev]),
                    Some(next) => blend_pose_spec(
                        keys[prev],
                        keys[next],
                        eased_progress_spec(prev, next, frame, tween),
                    ),
                }
            }
        },
    }
}

impl Default for ResolvedCamera {
    fn default() -> (r: Self)
        ensures
            r == default_camera(),
    {
        ResolvedCamera { position: Vec2 { x: 0, y: 0 }, zoom: ONE, rotation: 0 }
    }
}

/// Eases the progress of the camera: the same easing as for objects.
pub fn apply_camera_easing(t: i64, tween: TweenType) -> (r: i64)
    requires
        0 <= t <= ONE,
    ensures
        r == easing_spec(t as int, tween),
{
    apply_easing(t, tween)
}

/// The pose that a camera key holds.
pub fn pose_of(key: &CameraKeyframe) -> (r: ResolvedCamera)
    ensures
        r == pose_spec(*key),
{
    ResolvedCamera { position: key.position, zoom: key.zoom, rotation: key.rotation }
}

/// The pose of the project's camera at `frame`.
pub fn resolve_camera(project: &Project, frame: u32) -> (r: ResolvedCamera)
    ensures
        r == resolve_camera_spec(project.camera_keyframes@, project.camera_tween, frame),
{
    let keys = &project.camera_keyframes;
    proof {
        crate::timeline::lemma_floor_key_is_greatest(keys@.dom(), frame);
        crate::timeline::lemma_next_key_is_smallest(keys@.dom(), frame);
    }
    let (prev_frame, prev_camera) = match keys.predecessor(frame) {
        None => {
            return match keys.first() {
                None => ResolvedCamera::default(),
                Some((_, first)) => pose_of(first),
            };
        },
        Some(entry) => entry,
    };
    if prev_frame == frame || matches!(project.camera_tween, TweenType::Hold) {
        return pose_of(prev_camera);
    }
    let (next_frame, next_camera) = match keys.successor(frame) {
        None => {
            return pose_of(prev_camera);
        },
        Some(entry) => entry,
    };
    let t = eased_progress(prev_frame, next_frame, frame, project.camera_tween);
    ResolvedCamera {
        position: lerp_vec2(prev_camera.position, next_camera.position, t),
        zoom: lerp(prev_camera.zoom, next_camera.zoom, t),
        rotation: lerp_angle(prev_camera.rotation, next_camera.rotation, t),
    }
}

/// A camera without keys rests in the default pose at every frame.
pub proof fn lemma_camera_without_keys(keys: Map<u32, CameraKeyframe>, tween: TweenType, frame: u32)
    requires
        keys.dom() =~= Set::<u32>::empty(),
    ensures
        resolve_camera_spec(keys, tween, frame) == default_camera(),
{
    crate::timeline::lemma_floor_key_none(keys.dom(), frame);
    crate::timeline::lemma_next_key_none(keys.dom(), 0);
}

/// At a frame that has a camera key the camera is in exactly that pose.
pub proof fn lemma_camera_exact_at_key(keys: Map<u32, CameraKeyframe>, tween: TweenType, frame: u32)
    requires
        keys.dom().contains(frame),
    ensures
        resolve_camera_spec(keys, tween, frame) == pose_spec(keys[frame]),
{
}

/// Past its last key the camera holds the pose of that key.
pub proof fn lemma_camera_held_past_last_key(
    keys: Map<u32, CameraKeyframe>,
    tween: TweenType,
    last: u32,
    frame: u32,
)
    requires
        keys.dom().contains(last),
        last <= frame,
        forall|k: u32| keys.dom().contains(k) ==> k <= last,
    ensures
        resolve_camera_spec(keys, tween, frame) == pose_spec(keys[last]),
{
    crate::timeline::lemma_floor_key_some(keys.dom(), frame, last);
    crate::timeline::lemma_next_key_none(keys.dom(), frame);
}

} // verus!

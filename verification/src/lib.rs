//! A keyframe animation engine.
//!
//! Objects live on layers. A layer records their state at single frames,
//! the keyframes; what lies between two keyframes is reconstructed by
//! interpolation. This crate computes the state of a layer, and the pose
//! of the camera, at any frame.
//!
//! * [`fixed`] holds the arithmetic. Every scalar is a fixed-point number
//!   of six decimal places in an `i64`; results are rounded towards zero
//!   and saturate at the ends of the range, so no operation can fail.
//! * [`easing`] maps linear progress to eased progress, including custom
//!   cubic timing curves, which are inverted by Newton's method.
//! * [`timeline`] is the ordered map from frames to values, with the two
//!   range queries of resolution: the key at or before a frame and the
//!   key after it.
//! * [`geometry`], [`paint`] and [`shape`] hold the attributes of an
//!   object and their interpolation; [`shape`] also morphs paths of
//!   different point counts and shapes of different kinds.
//! * [`project`] holds objects, keyframes, property tracks and layers.
//! * [`tween`] resolves a layer at a frame and writes resolved states down
//!   as keyframes; [`camera`] resolves the camera.
//! * [`editing`] and [`playback`] hold the operations that an editor
//!   builds on: keyframe insertion and deletion, stacking order,
//!   clipboard, frame stepping and onion skins.
//! * [`svg`] escapes text for markup; [`ids`] makes identifiers.
//!
//! Every executable function has a contract over the mathematical value
//! of its arguments: the `View` of each type, and `spec` functions
//! such as [`tween::resolve_frame_spec`]. General properties of
//! resolution are stated and proved as `lemma_` functions next to the
//! functions they speak of.
pub mod camera;
pub mod easing;
pub mod editing;
pub mod fixed;
pub mod geometry;
pub mod ids;
pub mod paint;
pub mod playback;
pub mod project;
pub mod shape;
pub mod svg;
pub mod timeline;
pub mod tween;

//! Frame resolution: the state of a layer at an arbitrary frame, from its
//! keyframes and the property tracks of its objects.
use vstd::prelude::*;
use crate::easing::{apply_easing, easing_spec, TweenType};
use crate::fixed::{fraction, fraction_spec, lerp, lerp_angle, lerp_angle_spec, lerp_spec};
use crate::geometry::{lerp_vec2, lerp_vec2_spec, Vec2};
use crate::ids::ObjectId;
use crate::paint::{lerp_paint, lerp_paint_spec, Paint, PaintView};
use crate::project::{
    copy_objects, keyframes_view, literal_keyframe, objects_view, paint_track_view, tracks_view,
    AnimObject, Keyframe, KeyframeView, Layer, LayerView, ObjectView, PropertyKey, PropertyTracks,
    TracksView,
};
use crate::shape::{interpolate_shape, interpolate_shape_spec};
use crate::timeline::{floor_key, next_key, Timeline};

verus! {

broadcast use vstd::std_specs::hash::group_hash_axioms;

/// The eased progress at `frame` through the interval from the key at
/// `prev` to the key at `next`.
pub open spec fn eased_progress_spec(prev: u32, next: u32, frame: u32, tween: TweenType) -> int {
    easing_spec(fraction_spec(frame - prev, next - prev), tween)
}

/// Computes the eased progress through an interval between two keys.
pub fn eased_progress(prev: u32, next: u32, frame: u32, tween: TweenType) -> (t: i64)
    requires
        prev < frame < next,
    ensures
        t == eased_progress_spec(prev, next, frame, tween),
{
    let raw = fraction(frame - prev, next - prev);
    apply_easing(raw, tween)
}

/// The position of the first object with identifier `id`, looking from
/// position `start` on.
pub open spec fn first_with_id(objects: Seq<ObjectView>, id: ObjectId, start: int) -> Option<int>
    decreases objects.len() - start,
{
    if start < 0 || start >= objects.len() {
        None
    } else if objects[start].id == id {
        Some(start)
    } else {
        first_with_id(objects, id, start + 1)
    }
}

/// The object between `from` and `to` at the eased progress `t`. The shape
/// is interpolated only under a shape tween; otherwise that of `from` is
/// held.
pub open spec fn interpolate_object_spec(
    from: ObjectView,
    to: ObjectView,
    t: int,
    shape_tween: bool,
) -> ObjectView {
    ObjectView {
        id: from.id,
        shape: if shape_tween {
            interpolate_shape_spec(from.shape, to.shape, t)
        } else {
            from.shape
        },
        position: lerp_vec2_spec(from.position, to.position, t),
        rotation: lerp_angle_spec(from.rotation as int, to.rotation as int, t) as i64,
        scale: lerp_vec2_spec(from.scale, to.scale, t),
        fill: lerp_paint_spec(from.fill, to.fill, t),
        stroke: lerp_paint_spec(from.stroke, to.stroke, t),
        stroke_width: lerp_spec(from.stroke_width as int, to.stroke_width as int, t) as i64,
    }
}

/// What becomes of one object of the first keyframe: it is interpolated
/// towards the first object of the second keyframe that has its
/// identifier, and passed through unchanged if there is none.
pub open spec fn interpolate_against_spec(
    from: ObjectView,
    to: Seq<ObjectView>,
    t: int,
    shape_tween: bool,
) -> ObjectView {
    match first_with_id(to, from.id, 0) {
        Some(j) => interpolate_object_spec(from, to[j], t, shape_tween),
        None => from,
    }
}

/// The objects between two keyframes: one for each object of the first.
pub open spec fn interpolate_objects_spec(
    from: Seq<ObjectView>,
    to: Seq<ObjectView>,
    t: int,
    shape_tween: bool,
) -> Seq<ObjectView> {
    Seq::new(from.len(), |i: int| interpolate_against_spec(from[i], to, t, shape_tween))
}

/// The value of a property track at `frame`: none before its first key;
/// the key at or before `frame` where that key is at `frame`, is not
/// eased, or is the last; otherwise the blend of that key and the next.
pub open spec fn resolve_track_spec<V>(
    track: Map<u32, PropertyKey<V>>,
    frame: u32,
    blend: spec_fn(V, V, int) -> V,
) -> Option<V> {
    match floor_key(track.dom(), frame) {
        None => None,
        Some(prev) => {
            let key = track[prev];
            if prev == frame || key.tween is Hold {
                Some(key.value)
            } else {
                match next_key(track.dom(), frame) {
                    None => Some(key.value),
                    Some(next) => Some(
                        blend(
                            key.value,
                            track[next].value,
                            eased_progress_spec(prev, next, frame, key.tween),
                        ),
                    ),
                }
            }
        },
    }
}

/// The value of a track of scalars.
pub open spec fn resolve_track_scalar_spec(track: Map<u32, PropertyKey<i64>>, frame: u32) -> Option<
    i64,
> {
    resolve_track_spec(track, frame, |a: i64, b: i64, t: int| lerp_spec(a as int, b as int, t) as i64)
}

/// The value of a track of angles, blended along the shorter arc.
pub open spec fn resolve_track_angle_spec(track: Map<u32, PropertyKey<i64>>, frame: u32) -> Option<
    i64,
> {
    resolve_track_spec(
        track,
        frame,
        |a: i64, b: i64, t: int| lerp_angle_spec(a as int, b as int, t) as i64,
    )
}

/// The value of a track of points, blended axis by axis.
pub open spec fn resolve_track_vec2_spec(track: Map<u32, PropertyKey<Vec2>>, frame: u32) -> Option<
    Vec2,
> {
    resolve_track_spec(track, frame, |a: Vec2, b: Vec2, t: int| lerp_vec2_spec(a, b, t))
}

/// The value of a track of paints.
pub open spec fn resolve_track_paint_spec(
    track: Map<u32, PropertyKey<PaintView>>,
    frame: u32,
) -> Option<PaintView> {
    resolve_track_spec(track, frame, |a: PaintView, b: PaintView, t: int| lerp_paint_spec(a, b, t))
}

/// `base` unless `over` holds a value.
pub open spec fn overlay<V>(over: Option<V>, base: V) -> V {
    match over {
        Some(value) => value,
        None => base,
    }
}

/// An object with each attribute replaced by the value of its track,
/// where that track has one at `frame`.
pub open spec fn apply_property_tracks_spec(
    object: ObjectView,
    tracks: TracksView,
    frame: u32,
) -> ObjectView {
    ObjectView {
        id: object.id,
        shape: object.shape,
        position: overlay(resolve_track_vec2_spec(tracks.position, frame), object.position),
        rotation: overlay(resolve_track_angle_spec(tracks.rotation, frame), object.rotation),
        scale: overlay(resolve_track_vec2_spec(tracks.scale, frame), object.scale),
        fill: overlay(resolve_track_paint_spec(tracks.fill, frame), object.fill),
        stroke: overlay(resolve_track_paint_spec(tracks.stroke, frame), object.stroke),
        stroke_width: overlay(
            resolve_track_scalar_spec(tracks.stroke_width, frame),
            object.stroke_width,
        ),
    }
}

/// One object under the tracks that a layer holds for its identifier, if
/// any.
pub open spec fn overlay_object_spec(
    object: ObjectView,
    tracks: Map<ObjectId, TracksView>,
    frame: u32,
) -> ObjectView {
    if tracks.dom().contains(object.id) {
        apply_property_tracks_spec(object, tracks[object.id], frame)
    } else {
        object
    }
}

/// Every object of a list under its tracks.
pub open spec fn overlay_objects_spec(
    objects: Seq<ObjectView>,
    tracks: Map<ObjectId, TracksView>,
    frame: u32,
) -> Seq<ObjectView> {
    Seq::new(objects.len(), |i: int| overlay_object_spec(objects[i], tracks, frame))
}

/// The objects that the keyframes alone give at `frame`, before any
/// property track is applied; none if `frame` precedes every keyframe.
pub open spec fn base_objects_spec(keyframes: Map<u32, KeyframeView>, frame: u32) -> Option<
    Seq<ObjectView>,
> {
    match floor_key(keyframes.dom(), frame) {
        None => None,
        Some(prev) => {
            let key = keyframes[prev];
            if prev == frame || key.tween is Hold {
                Some(key.objects)
            } else {
                match next_key(keyframes.dom(), frame) {
                    None => Some(key.objects),
                    Some(next) => Some(
                        interpolate_objects_spec(
                            key.objects,
                            keyframes[next].objects,
                            eased_progress_spec(prev, next, frame, key.tween),
                            key.shape_tween,
                        ),
                    ),
                }
            }
        },
    }
}

/// The objects of a layer at `frame`.
pub open spec fn resolve_frame_spec(layer: LayerView, frame: u32) -> Option<Seq<ObjectView>> {
    match base_objects_spec(layer.keyframes, frame) {
        None => None,
        Some(objects) => Some(overlay_objects_spec(objects, layer.property_tracks, frame)),
    }
}

/// The layer with the state at `frame` written down as a literal keyframe,
/// unless `frame` has a keyframe already.
pub open spec fn ensure_keyframe_spec(layer: LayerView, frame: u32) -> LayerView {
    if layer.keyframes.dom().contains(frame) {
        layer
    } else {
        LayerView {
            keyframes: layer.keyframes.insert(
                frame,
                literal_keyframe(
                    match resolve_frame_spec(layer, frame) {
                        Some(objects) => objects,
                        None => Seq::<ObjectView>::empty(),
                    },
                ),
            ),
            ..layer
        }
    }
}

/// Interpolates one object towards its counterpart.
pub fn interpolate_object(from: &AnimObject, to: &AnimObject, t: i64, shape_tween: bool) -> (r:
    AnimObject)
    ensures
        r@ == interpolate_object_spec(from@, to@, t as int, shape_tween),
{
    let shape = if shape_tween {
        interpolate_shape(&from.shape, &to.shape, t)
    } else {
        from.shape.clone()
    };
    AnimObject {
        id: from.id,
        shape,
        position: lerp_vec2(from.position, to.position, t),
        rotation: lerp_angle(from.rotation, to.rotation, t),
        scale: lerp_vec2(from.scale, to.scale, t),
        fill: lerp_paint(&from.fill, &to.fill, t),
        stroke: lerp_paint(&from.stroke, &to.stroke, t),
        stroke_width: lerp(from.stroke_width, to.stroke_width, t),
    }
}

/// Finds the first object with identifier `id`. The list is walked from
/// the back, so that the match found last is the first in the list.
pub fn find_object(objects: &Vec<AnimObject>, id: ObjectId) -> (r: Option<usize>)
    ensures
        match r {
            Some(j) => first_with_id(objects_view(objects@), id, 0) == Some(j as int) && j
                < objects.len(),
            None => first_with_id(objects_view(objects@), id, 0) is None,
        },
{
    let mut j: usize = objects.len();
    let mut found: Option<usize> = None;
    while j > 0
        invariant
            j <= objects.len(),
            match found {
                Some(k) => first_with_id(objects_view(objects@), id, j as int) == Some(k as int)
                    && k < objects.len(),
                None => first_with_id(objects_view(objects@), id, j as int) is None,
            },
        decreases j,
    {
        j -= 1;
        if objects[j].id == id {
            found = Some(j);
        }
    }
    found
}

/// Interpolates every object of `from` towards its counterpart in `to`;
/// an object without counterpart is passed through unchanged.
pub fn interpolate_objects(
    from: &Vec<AnimObject>,
    to: &Vec<AnimObject>,
    t: i64,
    shape_tween: bool,
) -> (r: Vec<AnimObject>)
    ensures
        objects_view(r@) == interpolate_objects_spec(
            objects_view(from@),
            objects_view(to@),
            t as int,
            shape_tween,
        ),
{
    let mut result: Vec<AnimObject> = Vec::new();
    let mut i: usize = 0;
    while i < from.len()
        invariant
            i <= from.len(),
            result@.len() == i,
            forall|k: int|
                0 <= k < i ==> result@[k]@ == interpolate_against_spec(
                    from@[k]@,
                    objects_view(to@),
                    t as int,
                    shape_tween,
                ),
        decreases from.len() - i,
    {
        let from_obj = &from[i];
        match find_object(to, from_obj.id) {
            Some(j) => {
                result.push(interpolate_object(from_obj, &to[j], t, shape_tween));
            },
            None => {
                result.push(from_obj.clone());
            },
        }
        i += 1;
    }
    assert(objects_view(result@) =~= interpolate_objects_spec(
        objects_view(from@),
        objects_view(to@),
        t as int,
        shape_tween,
    ));
    result
}

/// Resolves a track of scalars at `frame`.
pub fn resolve_track_scalar(track: &Timeline<PropertyKey<i64>>, frame: u32) -> (r: Option<i64>)
    ensures
        r == resolve_track_scalar_spec(track@, frame),
{
    if track.is_empty() {
        proof {
            crate::timeline::lemma_floor_key_none(track@.dom(), frame);
        }
        return None;
    }
    match track.predecessor(frame) {
        None => None,
        Some((prev_frame, prev_key)) => {
            if prev_frame == frame || matches!(prev_key.tween, TweenType::Hold) {
                return Some(prev_key.value);
            }
            proof {
                crate::timeline::lemma_floor_key_is_greatest(track@.dom(), frame);
                crate::timeline::lemma_next_key_is_smallest(track@.dom(), frame);
            }
            match track.successor(frame) {
                None => Some(prev_key.value),
                Some((next_frame, next_key)) => {
                    let t = eased_progress(prev_frame, next_frame, frame, prev_key.tween);
                    Some(lerp(prev_key.value, next_key.value, t))
                },
            }
        },
    }
}

/// Resolves a track of angles at `frame`.
pub fn resolve_track_angle(track: &Timeline<PropertyKey<i64>>, frame: u32) -> (r: Option<i64>)
    ensures
        r == resolve_track_angle_spec(track@, frame),
{
    if track.is_empty() {
        proof {
            crate::timeline::lemma_floor_key_none(track@.dom(), frame);
        }
        return None;
    }
    match track.predecessor(frame) {
        None => None,
        Some((prev_frame, prev_key)) => {
            if prev_frame == frame || matches!(prev_key.tween, TweenType::Hold) {
                return Some(prev_key.value);
            }
            proof {
                crate::timeline::lemma_floor_key_is_greatest(track@.dom(), frame);
                crate::timeline::lemma_next_key_is_smallest(track@.dom(), frame);
            }
            match track.successor(frame) {
                None => Some(prev_key.value),
                Some((next_frame, next_key)) => {
                    let t = eased_progress(prev_frame, next_frame, frame, prev_key.tween);
                    Some(lerp_angle(prev_key.value, next_key.value, t))
                },
            }
        },
    }
}

/// Resolves a track of points at `frame`.
pub fn resolve_track_vec2(track: &Timeline<PropertyKey<Vec2>>, frame: u32) -> (r: Option<Vec2>)
    ensures
        r == resolve_track_vec2_spec(track@, frame),
{
    if track.is_empty() {
        proof {
            crate::timeline::lemma_floor_key_none(track@.dom(), frame);
        }
        return None;
    }
    match track.predecessor(frame) {
        None => None,
        Some((prev_frame, prev_key)) => {
            if prev_frame == frame || matches!(prev_key.tween, TweenType::Hold) {
                return Some(prev_key.value);
            }
            proof {
                crate::timeline::lemma_floor_key_is_greatest(track@.dom(), frame);
                crate::timeline::lemma_next_key_is_smallest(track@.dom(), frame);
            }
            match track.successor(frame) {
                None => Some(prev_key.value),
                Some((next_frame, next_key)) => {
                    let t = eased_progress(prev_frame, next_frame, frame, prev_key.tween);
                    Some(lerp_vec2(prev_key.value, next_key.value, t))
                },
            }
        },
    }
}

/// Resolves a track of paints at `frame`.
pub fn resolve_track_paint(track: &Timeline<PropertyKey<Paint>>, frame: u32) -> (r: Option<Paint>)
    ensures
        match r {
            Some(paint) => resolve_track_paint_spec(paint_track_view(track@), frame) == Some(
                paint@,
            ),
            None => resolve_track_paint_spec(paint_track_view(track@), frame) is None,
        },
{
    assert(paint_track_view(track@).dom() =~= track@.dom());
    if track.is_empty() {
        proof {
            crate::timeline::lemma_floor_key_none(track@.dom(), frame);
        }
        return None;
    }
    match track.predecessor(frame) {
        None => None,
        Some((prev_frame, prev_key)) => {
            proof {
                crate::timeline::lemma_floor_key_is_greatest(track@.dom(), frame);
                crate::timeline::lemma_next_key_is_smallest(track@.dom(), frame);
            }
            if prev_frame == frame || matches!(prev_key.tween, TweenType::Hold) {
                return Some(prev_key.value.clone());
            }
            match track.successor(frame) {
                None => Some(prev_key.value.clone()),
                Some((next_frame, next_key)) => {
                    let t = eased_progress(prev_frame, next_frame, frame, prev_key.tween);
                    Some(lerp_paint(&prev_key.value, &next_key.value, t))
                },
            }
        },
    }
}

/// Replaces each attribute of `object` that has a track with a value at
/// `frame` by that value.
pub fn apply_property_tracks(object: &mut AnimObject, tracks: &PropertyTracks, frame: u32)
    ensures
        final(object)@ == apply_property_tracks_spec(old(object)@, tracks@, frame),
{
    if let Some(value) = resolve_track_vec2(&tracks.position, frame) {
        object.position = value;
    }
    if let Some(value) = resolve_track_angle(&tracks.rotation, frame) {
        object.rotation = value;
    }
    if let Some(value) = resolve_track_vec2(&tracks.scale, frame) {
        object.scale = value;
    }
    if let Some(value) = resolve_track_paint(&tracks.fill, frame) {
        object.fill = value;
    }
    if let Some(value) = resolve_track_paint(&tracks.stroke, frame) {
        object.stroke = value;
    }
    if let Some(value) = resolve_track_scalar(&tracks.stroke_width, frame) {
        object.stroke_width = value;
    }
}

/// Applies to every object the property tracks that the layer holds for
/// it.
pub fn overlay_objects(objects: &mut Vec<AnimObject>, layer: &Layer, frame: u32)
    ensures
        final(objects).len() == old(objects).len(),
        objects_view(final(objects)@) == overlay_objects_spec(
            objects_view(old(objects)@),
            layer@.property_tracks,
            frame,
        ),
{
    let ghost base = objects_view(objects@);
    let ghost tracks = layer@.property_tracks;
    let count = objects.len();
    let mut i: usize = 0;
    while i < count
        invariant
            i <= count,
            objects@.len() == count,
            base.len() == count,
            tracks == tracks_view(layer.property_tracks@),
            forall|k: int| 0 <= k < i ==> objects@[k]@ == overlay_object_spec(base[k], tracks, frame),
            forall|k: int| i <= k < count ==> objects@[k]@ == base[k],
        decreases count - i,
    {
        let id = objects[i].id;
        if let Some(object_tracks) = layer.property_tracks.get(&id) {
            apply_property_tracks(&mut objects[i], object_tracks, frame);
        }
        i += 1;
    }
    assert(objects_view(objects@) =~= overlay_objects_spec(base, tracks, frame));
}

/// The objects of `layer` at `frame`, or nothing if `frame` precedes every
/// keyframe of the layer.
///
/// The keyframe at or before `frame` gives the objects as they are where
/// it is at `frame`, is not eased, or is the last; otherwise they are
/// interpolated towards the next keyframe. Property tracks are applied on
/// top.
pub fn resolve_frame(layer: &Layer, frame: u32) -> (r: Option<Vec<AnimObject>>)
    ensures
        match r {
            Some(objects) => resolve_frame_spec(layer@, frame) == Some(objects_view(objects@)),
            None => resolve_frame_spec(layer@, frame) is None,
        },
{
    assert(keyframes_view(layer.keyframes@).dom() =~= layer.keyframes@.dom());
    proof {
        crate::timeline::lemma_floor_key_is_greatest(layer.keyframes@.dom(), frame);
        crate::timeline::lemma_next_key_is_smallest(layer.keyframes@.dom(), frame);
    }
    let (prev_frame, prev_keyframe) = match layer.keyframes.predecessor(frame) {
        None => {
            return None;
        },
        Some(entry) => entry,
    };
    let mut objects = if prev_frame == frame || matches!(prev_keyframe.tween, TweenType::Hold) {
        copy_objects(&prev_keyframe.objects)
    } else {
        match layer.keyframes.successor(frame) {
            Some((next_frame, next_keyframe)) => {
                let t = eased_progress(prev_frame, next_frame, frame, prev_keyframe.tween);
                interpolate_objects(
                    &prev_keyframe.objects,
                    &next_keyframe.objects,
                    t,
                    prev_keyframe.shape_tween,
                )
            },
            None => copy_objects(&prev_keyframe.objects),
        }
    };
    assert(base_objects_spec(layer@.keyframes, frame) == Some(objects_view(objects@)));
    overlay_objects(&mut objects, layer, frame);
    Some(objects)
}

/// Makes sure that `frame` has a keyframe of its own: if it has none, the
/// state resolved at `frame` is written down as a literal keyframe there
/// (an empty one if `frame` precedes every keyframe). A layer that has a
/// keyframe at `frame` is left as it is.
pub fn ensure_keyframe_at(layer: &mut Layer, frame: u32)
    ensures
        final(layer)@ == ensure_keyframe_spec(old(layer)@, frame),
{
    assert(keyframes_view(layer.keyframes@).dom() =~= layer.keyframes@.dom());
    if layer.keyframes.contains_key(frame) {
        return;
    }
    let resolved = resolve_frame(&*layer, frame);
    let keyframe = match resolved {
        Some(objects) => Keyframe {
            objects,
            tween: TweenType::Hold,
            label: String::new(),
            comment: String::new(),
            shape_tween: false,
        },
        None => Keyframe::default(),
    };
    let ghost before = layer.keyframes@;
    layer.keyframes.insert(frame, keyframe);
    assert(keyframes_view(before.insert(frame, keyframe)) =~= keyframes_view(before).insert(
        frame,
        keyframe@,
    ));
}

/// Materializing a keyframe twice is the same as materializing it once.
pub proof fn lemma_ensure_keyframe_idempotent(layer: LayerView, frame: u32)
    ensures
        ensure_keyframe_spec(ensure_keyframe_spec(layer, frame), frame) == ensure_keyframe_spec(
            layer,
            frame,
        ),
{
}

/// Materializing a keyframe changes nothing but the keyframe map, and
/// there only the entry at `frame`.
pub proof fn lemma_ensure_keyframe_touches_one_frame(layer: LayerView, frame: u32, other: u32)
    requires
        other != frame,
    ensures
        ensure_keyframe_spec(layer, frame).keyframes.dom().contains(frame),
        ensure_keyframe_spec(layer, frame).keyframes.dom().contains(other)
            == layer.keyframes.dom().contains(other),
        layer.keyframes.dom().contains(other) ==> ensure_keyframe_spec(layer, frame).keyframes[other]
            == layer.keyframes[other],
        ensure_keyframe_spec(layer, frame).property_tracks == layer.property_tracks,
{
}

/// A track without keys has no value at any frame.
pub proof fn lemma_empty_track_resolves_to_none<V>(
    track: Map<u32, PropertyKey<V>>,
    frame: u32,
    blend: spec_fn(V, V, int) -> V,
)
    requires
        track.dom() =~= Set::<u32>::empty(),
    ensures
        resolve_track_spec(track, frame, blend) is None,
{
    crate::timeline::lemma_floor_key_none(track.dom(), frame);
}

/// A track has a value at every frame from its first key on, and at no
/// frame before it.
pub proof fn lemma_track_resolves_from_first_key<V>(
    track: Map<u32, PropertyKey<V>>,
    frame: u32,
    blend: spec_fn(V, V, int) -> V,
)
    ensures
        resolve_track_spec(track, frame, blend) is Some <==> exists|k: u32|
            track.dom().contains(k) && k <= frame,
{
    crate::timeline::lemma_floor_key_is_greatest(track.dom(), frame);
}

/// Tracks without keys leave an object as it is.
pub proof fn lemma_empty_tracks_change_nothing(object: ObjectView, tracks: TracksView, frame: u32)
    requires
        tracks.is_empty(),
    ensures
        apply_property_tracks_spec(object, tracks, frame) == object,
{
    crate::timeline::lemma_floor_key_none(tracks.position.dom(), frame);
    crate::timeline::lemma_floor_key_none(tracks.rotation.dom(), frame);
    crate::timeline::lemma_floor_key_none(tracks.scale.dom(), frame);
    crate::timeline::lemma_floor_key_none(tracks.fill.dom(), frame);
    crate::timeline::lemma_floor_key_none(tracks.stroke.dom(), frame);
    crate::timeline::lemma_floor_key_none(tracks.stroke_width.dom(), frame);
}

/// Whether the property tracks of a layer can change none of `objects`:
/// each object has no tracks, or tracks without keys.
pub open spec fn untracked(objects: Seq<ObjectView>, tracks: Map<ObjectId, TracksView>) -> bool {
    forall|i: int|
        0 <= i < objects.len() ==> (tracks.dom().contains(#[trigger] objects[i].id)
            ==> tracks[objects[i].id].is_empty())
}

/// Exactness at keyframes: a frame that has a keyframe resolves to the
/// objects of that keyframe under the property tracks, whatever its
/// easing and whatever the neighbouring keyframes hold.
pub proof fn lemma_exact_at_keyframe(layer: LayerView, frame: u32)
    requires
        layer.keyframes.dom().contains(frame),
    ensures
        resolve_frame_spec(layer, frame) == Some(
            overlay_objects_spec(layer.keyframes[frame].objects, layer.property_tracks, frame),
        ),
{
}

/// Exactness at keyframes without tracks: where no property track can
/// change the objects of the keyframe at `frame`, the frame resolves to
/// exactly those objects.
pub proof fn lemma_exact_at_untracked_keyframe(layer: LayerView, frame: u32)
    requires
        layer.keyframes.dom().contains(frame),
        untracked(layer.keyframes[frame].objects, layer.property_tracks),
    ensures
        resolve_frame_spec(layer, frame) == Some(layer.keyframes[frame].objects),
{
    let objects = layer.keyframes[frame].objects;
    assert forall|i: int| 0 <= i < objects.len() implies overlay_object_spec(
        objects[i],
        layer.property_tracks,
        frame,
    ) == objects[i] by {
        if layer.property_tracks.dom().contains(objects[i].id) {
            lemma_empty_tracks_change_nothing(
                objects[i],
                layer.property_tracks[objects[i].id],
                frame,
            );
        }
    }
    assert(overlay_objects_spec(objects, layer.property_tracks, frame) =~= objects);
}

/// Nothing before the first keyframe: a frame that precedes every keyframe
/// of a layer has no content.
pub proof fn lemma_nothing_before_first_keyframe(layer: LayerView, frame: u32)
    requires
        forall|k: u32| layer.keyframes.dom().contains(k) ==> frame < k,
    ensures
        resolve_frame_spec(layer, frame) is None,
{
    crate::timeline::lemma_floor_key_none(layer.keyframes.dom(), frame);
}

/// Held past the last keyframe: a frame beyond the last keyframe resolves
/// to the objects of that keyframe under the property tracks, whatever its
/// easing.
pub proof fn lemma_held_past_last_keyframe(layer: LayerView, last: u32, frame: u32)
    requires
        layer.keyframes.dom().contains(last),
        last <= frame,
        forall|k: u32| layer.keyframes.dom().contains(k) ==> k <= last,
    ensures
        base_objects_spec(layer.keyframes, frame) == Some(layer.keyframes[last].objects),
        resolve_frame_spec(layer, frame) == Some(
            overlay_objects_spec(layer.keyframes[last].objects, layer.property_tracks, frame),
        ),
{
    crate::timeline::lemma_floor_key_some(layer.keyframes.dom(), frame, last);
    crate::timeline::lemma_next_key_none(layer.keyframes.dom(), frame);
}

/// Track override precedence, for one object: an attribute without keys
/// keeps the base value, an attribute whose track has a key at or before
/// `frame` takes the value of the track. Stated for position and
/// rotation.
pub proof fn lemma_track_override_precedence(object: ObjectView, tracks: TracksView, frame: u32)
    requires
        tracks.position.dom() =~= Set::<u32>::empty(),
        exists|k: u32| tracks.rotation.dom().contains(k) && k <= frame,
    ensures
        apply_property_tracks_spec(object, tracks, frame).position == object.position,
        resolve_track_angle_spec(tracks.rotation, frame) == Some(
            apply_property_tracks_spec(object, tracks, frame).rotation,
        ),
{
    crate::timeline::lemma_floor_key_none(tracks.position.dom(), frame);
    crate::timeline::lemma_floor_key_is_greatest(tracks.rotation.dom(), frame);
}

/// Track override precedence, for a resolved frame: the object at
/// position `i` has the position that the keyframes give it and the
/// rotation that its rotation track gives.
pub proof fn lemma_resolved_track_override(layer: LayerView, frame: u32, i: int)
    requires
        base_objects_spec(layer.keyframes, frame) is Some,
        0 <= i < base_objects_spec(layer.keyframes, frame).unwrap().len(),
        layer.property_tracks.dom().contains(
            base_objects_spec(layer.keyframes, frame).unwrap()[i].id,
        ),
        layer.property_tracks[base_objects_spec(
            layer.keyframes,
            frame,
        ).unwrap()[i].id].position.dom() =~= Set::<u32>::empty(),
        exists|k: u32|
            layer.property_tracks[base_objects_spec(
                layer.keyframes,
                frame,
            ).unwrap()[i].id].rotation.dom().contains(k) && k <= frame,
    ensures
        resolve_frame_spec(layer, frame) is Some,
        resolve_frame_spec(layer, frame).unwrap()[i].position == base_objects_spec(
            layer.keyframes,
            frame,
        ).unwrap()[i].position,
        resolve_track_angle_spec(
            layer.property_tracks[base_objects_spec(layer.keyframes, frame).unwrap()[i].id].rotation,
            frame,
        ) == Some(resolve_frame_spec(layer, frame).unwrap()[i].rotation),
{
    let base = base_objects_spec(layer.keyframes, frame).unwrap();
    lemma_track_override_precedence(base[i], layer.property_tracks[base[i].id], frame);
}

/// Applying property tracks twice is the same as applying them once: a
/// track replaces a value, whatever that value was.
pub proof fn lemma_overlay_is_idempotent(
    objects: Seq<ObjectView>,
    tracks: Map<ObjectId, TracksView>,
    frame: u32,
)
    ensures
        overlay_objects_spec(overlay_objects_spec(objects, tracks, frame), tracks, frame)
            == overlay_objects_spec(objects, tracks, frame),
{
    assert(overlay_objects_spec(overlay_objects_spec(objects, tracks, frame), tracks, frame)
        =~= overlay_objects_spec(objects, tracks, frame));
}

/// A materialized keyframe shows what the frame showed before: after
/// "ensure keyframe at `frame`" the frame resolves to the same objects as
/// it did, or to no objects if it had no content.
pub proof fn lemma_materialized_frame_resolves_as_before(layer: LayerView, frame: u32)
    ensures
        resolve_frame_spec(ensure_keyframe_spec(layer, frame), frame) == (match resolve_frame_spec(
            layer,
            frame,
        ) {
            Some(objects) => Some(objects),
            None => Some(Seq::<ObjectView>::empty()),
        }),
{
    if layer.keyframes.dom().contains(frame) {
    } else {
        match base_objects_spec(layer.keyframes, frame) {
            Some(base) => {
                lemma_overlay_is_idempotent(base, layer.property_tracks, frame);
            },
            None => {
                assert(overlay_objects_spec(
                    Seq::<ObjectView>::empty(),
                    layer.property_tracks,
                    frame,
                ) =~= Seq::<ObjectView>::empty());
            },
        }
    }
}

/// Identity across snapshots: a resolved frame has one object for each
/// object of the keyframe at or before it, in the same order and under
/// the same identifier. No object is interpolated away, none is added.
pub proof fn lemma_resolved_objects_follow_the_keyframe(layer: LayerView, frame: u32, i: int)
    requires
        floor_key(layer.keyframes.dom(), frame) is Some,
        0 <= i < layer.keyframes[floor_key(layer.keyframes.dom(), frame).unwrap()].objects.len(),
    ensures
        resolve_frame_spec(layer, frame) is Some,
        resolve_frame_spec(layer, frame).unwrap().len() == layer.keyframes[floor_key(
            layer.keyframes.dom(),
            frame,
        ).unwrap()].objects.len(),
        resolve_frame_spec(layer, frame).unwrap()[i].id == layer.keyframes[floor_key(
            layer.keyframes.dom(),
            frame,
        ).unwrap()].objects[i].id,
        resolve_frame_spec(layer, frame).unwrap()[i].shape == base_objects_spec(
            layer.keyframes,
            frame,
        ).unwrap()[i].shape,
{
}

/// Linear interpolation law: between two neighbouring keyframes, the
/// earlier one eased linearly, an object that both hold and that no track
/// overrides is at the point the elapsed fraction of the way from its
/// earlier position to its later one.
pub proof fn lemma_linear_interpolation(layer: LayerView, prev: u32, next: u32, frame: u32, i: int)
    requires
        prev < frame < next,
        layer.keyframes.dom().contains(prev),
        layer.keyframes.dom().contains(next),
        forall|k: u32| prev < k < next ==> !layer.keyframes.dom().contains(k),
        layer.keyframes[prev].tween is Linear,
        0 <= i < layer.keyframes[prev].objects.len(),
        first_with_id(layer.keyframes[next].objects, layer.keyframes[prev].objects[i].id, 0)
            is Some,
        !layer.property_tracks.dom().contains(layer.keyframes[prev].objects[i].id),
    ensures
        resolve_frame_spec(layer, frame) is Some,
        resolve_frame_spec(layer, frame).unwrap()[i].position == lerp_vec2_spec(
            layer.keyframes[prev].objects[i].position,
            layer.keyframes[next].objects[first_with_id(
                layer.keyframes[next].objects,
                layer.keyframes[prev].objects[i].id,
                0,
            ).unwrap()].position,
            fraction_spec(frame - prev, next - prev),
        ),
{
    crate::timeline::lemma_floor_key_some(layer.keyframes.dom(), frame, prev);
    crate::timeline::lemma_next_key_some(layer.keyframes.dom(), frame, next);
}

} // verus!

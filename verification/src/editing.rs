//! Editing: the operations that write keyframes and tracks.
//!
//! An operation that changes what a frame shows first writes the resolved
//! state of that frame down as a literal keyframe, and then changes that
//! keyframe. Taking a snapshot for undo before the call is the caller's
//! business.
use vstd::prelude::*;
use crate::fixed::{saturate, saturate_i128};
use crate::geometry::Vec2;
use crate::ids::{fresh_id, ObjectId};
use crate::project::{
    copy_objects, keyframes_view, literal_keyframe, objects_view, AnimObject, Keyframe,
    KeyframeView, Layer, LayerView, ObjectView,
};
use crate::easing::TweenType;
use crate::project::PropertyKey;
use crate::shape::{copy_points, corner, corner_spec, PathPoint, Shape, ShapeView};
use crate::timeline::{floor_key, Timeline};
use crate::tween::{ensure_keyframe_at, ensure_keyframe_spec, resolve_frame, resolve_frame_spec};

verus! {

/// The values of a list of layers.
pub open spec fn layers_view(layers: Seq<Layer>) -> Seq<LayerView> {
    layers.map_values(|layer: Layer| layer@)
}

/// The layer with a keyframe at `frame` that repeats the keyframe at or
/// before it (an empty keyframe if there is none), unless `frame` has a
/// keyframe already.
pub open spec fn insert_keyframe_spec(layer: LayerView, frame: u32) -> LayerView {
    if layer.keyframes.dom().contains(frame) {
        layer
    } else {
        LayerView {
            keyframes: layer.keyframes.insert(
                frame,
                match floor_key(layer.keyframes.dom(), frame) {
                    Some(prev) => layer.keyframes[prev],
                    None => literal_keyframe(Seq::<ObjectView>::empty()),
                },
            ),
            ..layer
        }
    }
}

/// The layer with an empty keyframe at `frame`, in the place of whatever
/// was there.
pub open spec fn insert_blank_keyframe_spec(layer: LayerView, frame: u32) -> LayerView {
    LayerView {
        keyframes: layer.keyframes.insert(frame, literal_keyframe(Seq::<ObjectView>::empty())),
        ..layer
    }
}

/// Whether the keyframe at `frame` may be deleted: it exists, and it is
/// not the only one.
pub open spec fn can_delete_keyframe(layer: LayerView, frame: u32) -> bool {
    layer.keyframes.dom().contains(frame) && layer.keyframes.dom().len() > 1
}

/// The layer without its keyframe at `frame`, where that may be deleted.
pub open spec fn delete_keyframe_spec(layer: LayerView, frame: u32) -> LayerView {
    if can_delete_keyframe(layer, frame) {
        LayerView { keyframes: layer.keyframes.remove(frame), ..layer }
    } else {
        layer
    }
}

impl Layer {
    /// Gives `frame` a keyframe that repeats the one at or before it.
    pub fn insert_keyframe(&mut self, frame: u32)
        ensures
            final(self)@ == insert_keyframe_spec(old(self)@, frame),
    {
        assert(keyframes_view(self.keyframes@).dom() =~= self.keyframes@.dom());
        if self.keyframes.contains_key(frame) {
            return;
        }
        proof {
            crate::timeline::lemma_floor_key_is_greatest(self.keyframes@.dom(), frame);
        }
        let keyframe = match self.keyframes.predecessor(frame) {
            Some((_, prev)) => prev.clone(),
            None => Keyframe::default(),
        };
        let ghost before = self.keyframes@;
        self.keyframes.insert(frame, keyframe);
        assert(keyframes_view(before.insert(frame, keyframe)) =~= keyframes_view(before).insert(
            frame,
            keyframe@,
        ));
    }

    /// Puts an empty keyframe at `frame`.
    pub fn insert_blank_keyframe(&mut self, frame: u32)
        ensures
            final(self)@ == insert_blank_keyframe_spec(old(self)@, frame),
    {
        let keyframe = Keyframe::default();
        let ghost before = self.keyframes@;
        self.keyframes.insert(frame, keyframe);
        assert(keyframes_view(before.insert(frame, keyframe)) =~= keyframes_view(before).insert(
            frame,
            keyframe@,
        ));
    }

    /// Deletes the keyframe at `frame`, unless there is none or it is the
    /// only one. Returns whether a keyframe was deleted.
    pub fn delete_keyframe(&mut self, frame: u32) -> (deleted: bool)
        ensures
            deleted == can_delete_keyframe(old(self)@, frame),
            final(self)@ == delete_keyframe_spec(old(self)@, frame),
    {
        assert(keyframes_view(self.keyframes@).dom() =~= self.keyframes@.dom());
        if !self.keyframes.contains_key(frame) || self.keyframes.len() <= 1 {
            return false;
        }
        let ghost before = self.keyframes@;
        self.keyframes.remove(frame);
        assert(keyframes_view(before.remove(frame)) =~= keyframes_view(before).remove(frame));
        true
    }
}

/// Gives `frame` a keyframe on the layer at position `active_layer`, if
/// there is such a layer.
pub fn insert_keyframe(layers: &mut Vec<Layer>, active_layer: usize, frame: u32)
    ensures
        layers_view(final(layers)@) == (if active_layer < old(layers).len() {
            layers_view(old(layers)@).update(
                active_layer as int,
                insert_keyframe_spec(old(layers)@[active_layer as int]@, frame),
            )
        } else {
            layers_view(old(layers)@)
        }),
{
    if active_layer >= layers.len() {
        return;
    }
    let ghost before = layers@;
    layers[active_layer].insert_keyframe(frame);
    assert(layers_view(layers@) =~= layers_view(before).update(
        active_layer as int,
        insert_keyframe_spec(before[active_layer as int]@, frame),
    ));
}

/// Puts an empty keyframe at `frame` on the layer at position
/// `active_layer`, if there is such a layer.
pub fn insert_blank_keyframe(layers: &mut Vec<Layer>, active_layer: usize, frame: u32)
    ensures
        layers_view(final(layers)@) == (if active_layer < old(layers).len() {
            layers_view(old(layers)@).update(
                active_layer as int,
                insert_blank_keyframe_spec(old(layers)@[active_layer as int]@, frame),
            )
        } else {
            layers_view(old(layers)@)
        }),
{
    if active_layer >= layers.len() {
        return;
    }
    let ghost before = layers@;
    layers[active_layer].insert_blank_keyframe(frame);
    assert(layers_view(layers@) =~= layers_view(before).update(
        active_layer as int,
        insert_blank_keyframe_spec(before[active_layer as int]@, frame),
    ));
}

/// Deletes the keyframe at `frame` of the layer at position
/// `active_layer`, if there is such a layer and the keyframe exists and is
/// not the only one of the layer.
pub fn delete_keyframe(layers: &mut Vec<Layer>, active_layer: usize, frame: u32)
    ensures
        layers_view(final(layers)@) == (if active_layer < old(layers).len() {
            layers_view(old(layers)@).update(
                active_layer as int,
                delete_keyframe_spec(old(layers)@[active_layer as int]@, frame),
            )
        } else {
            layers_view(old(layers)@)
        }),
{
    if active_layer >= layers.len() {
        return;
    }
    let ghost before = layers@;
    layers[active_layer].delete_keyframe(frame);
    assert(layers_view(layers@) =~= layers_view(before).update(
        active_layer as int,
        delete_keyframe_spec(before[active_layer as int]@, frame),
    ));
}

/// Whether some object of `objects` is selected.
pub open spec fn any_selected(objects: Seq<ObjectView>, selected: Seq<ObjectId>) -> bool {
    exists|i: int| 0 <= i < objects.len() && selected.contains(#[trigger] objects[i].id)
}

/// The objects of `objects` that are selected (`wanted`) or that are not
/// (`!wanted`), in their order.
pub open spec fn pick_spec(objects: Seq<ObjectView>, selected: Seq<ObjectId>, wanted: bool) -> Seq<
    ObjectView,
>
    decreases objects.len(),
{
    if objects.len() == 0 {
        Seq::<ObjectView>::empty()
    } else {
        pick_spec(objects.drop_last(), selected, wanted) + (if selected.contains(objects.last().id)
            == wanted {
            seq![objects.last()]
        } else {
            Seq::<ObjectView>::empty()
        })
    }
}

/// `objects` with the objects at positions `i` and `i + 1` exchanged.
pub open spec fn exchange_spec(objects: Seq<ObjectView>, i: int) -> Seq<ObjectView> {
    objects.update(i, objects[i + 1]).update(i + 1, objects[i])
}

/// One step of bringing forward: the object at position `i` moves one
/// place up if it is selected and the object above it is not.
pub open spec fn step_forward_spec(
    objects: Seq<ObjectView>,
    selected: Seq<ObjectId>,
    i: int,
) -> Seq<ObjectView> {
    if 0 <= i && i + 1 < objects.len() && selected.contains(objects[i].id) && !selected.contains(
        objects[i + 1].id,
    ) {
        exchange_spec(objects, i)
    } else {
        objects
    }
}

/// Bringing forward, from position `i` down to the bottom.
pub open spec fn scan_forward_spec(
    objects: Seq<ObjectView>,
    selected: Seq<ObjectId>,
    i: int,
) -> Seq<ObjectView>
    decreases i + 1,
{
    if i < 0 {
        objects
    } else {
        scan_forward_spec(step_forward_spec(objects, selected, i), selected, i - 1)
    }
}

/// One step of sending backward: the object at position `i` moves one
/// place down if it is selected and the object below it is not.
pub open spec fn step_backward_spec(
    objects: Seq<ObjectView>,
    selected: Seq<ObjectId>,
    i: int,
) -> Seq<ObjectView> {
    if 1 <= i < objects.len() && selected.contains(objects[i].id) && !selected.contains(
        objects[i - 1].id,
    ) {
        exchange_spec(objects, i - 1)
    } else {
        objects
    }
}

/// Sending backward, from position `i` up to the top.
pub open spec fn scan_backward_spec(
    objects: Seq<ObjectView>,
    selected: Seq<ObjectId>,
    i: int,
) -> Seq<ObjectView>
    decreases objects.len() - i,
{
    if i < 0 || i >= objects.len() {
        objects
    } else {
        scan_backward_spec(step_backward_spec(objects, selected, i), selected, i + 1)
    }
}

/// A way of rearranging the objects of a keyframe around a selection.
#[derive(Clone, Copy, Debug, PartialEq, Eq, Structural)]
pub enum Arrangement {
    /// The selected objects go on top of all others.
    ToFront,
    /// The selected objects go below all others.
    ToBack,
    /// Each selected object passes the unselected object above it.
    Forward,
    /// Each selected object passes the unselected object below it.
    Backward,
    /// The selected objects are taken out.
    Delete,
}

/// `objects` rearranged. Objects are drawn in order, so the last one is on
/// top.
pub open spec fn arrange_spec(
    objects: Seq<ObjectView>,
    selected: Seq<ObjectId>,
    how: Arrangement,
) -> Seq<ObjectView> {
    match how {
        Arrangement::ToFront => pick_spec(objects, selected, false) + pick_spec(
            objects,
            selected,
            true,
        ),
        Arrangement::ToBack => pick_spec(objects, selected, true) + pick_spec(
            objects,
            selected,
            false,
        ),
        Arrangement::Forward => scan_forward_spec(objects, selected, objects.len() - 1),
        Arrangement::Backward => scan_backward_spec(objects, selected, 1),
        Arrangement::Delete => pick_spec(objects, selected, false),
    }
}

/// Whether `id` is among `selected`.
pub fn is_selected(selected: &Vec<ObjectId>, id: ObjectId) -> (r: bool)
    ensures
        r == selected@.contains(id),
{
    let mut i: usize = 0;
    while i < selected.len()
        invariant
            i <= selected.len(),
            forall|j: int| 0 <= j < i ==> selected@[j] != id,
        decreases selected.len() - i,
    {
        if selected[i] == id {
            return true;
        }
        i += 1;
    }
    false
}

/// Whether some object of `objects` is among `selected`.
pub fn has_selected(objects: &Vec<AnimObject>, selected: &Vec<ObjectId>) -> (r: bool)
    ensures
        r == any_selected(objects_view(objects@), selected@),
{
    let mut i: usize = 0;
    while i < objects.len()
        invariant
            i <= objects.len(),
            forall|j: int| 0 <= j < i ==> !selected@.contains(objects_view(objects@)[j].id),
        decreases objects.len() - i,
    {
        if is_selected(selected, objects[i].id) {
            assert(selected@.contains(objects_view(objects@)[i as int].id));
            return true;
        }
        i += 1;
    }
    false
}

/// Copies the objects that are selected (`wanted`) or that are not
/// (`!wanted`), in their order.
pub fn pick(objects: &Vec<AnimObject>, selected: &Vec<ObjectId>, wanted: bool) -> (r: Vec<
    AnimObject,
>)
    ensures
        objects_view(r@) == pick_spec(objects_view(objects@), selected@, wanted),
{
    let ghost all = objects_view(objects@);
    let mut out: Vec<AnimObject> = Vec::new();
    let mut i: usize = 0;
    assert(all.take(0) =~= Seq::<ObjectView>::empty());
    assert(objects_view(out@) =~= Seq::<ObjectView>::empty());
    while i < objects.len()
        invariant
            i <= objects.len(),
            all == objects_view(objects@),
            objects_view(out@) == pick_spec(all.take(i as int), selected@, wanted),
        decreases objects.len() - i,
    {
        let ghost before = objects_view(out@);
        assert(all.take(i + 1).drop_last() =~= all.take(i as int));
        assert(all.take(i + 1).last() == all[i as int]);
        if is_selected(selected, objects[i].id) == wanted {
            out.push(objects[i].clone());
            assert(objects_view(out@) =~= before + seq![all[i as int]]);
        } else {
            assert(objects_view(out@) =~= before + Seq::<ObjectView>::empty());
        }
        i += 1;
    }
    assert(all.take(objects.len() as int) =~= all);
    out
}

/// Appends copies of `more` to `objects`.
pub fn append_objects(objects: &mut Vec<AnimObject>, more: &Vec<AnimObject>)
    ensures
        objects_view(final(objects)@) == objects_view(old(objects)@) + objects_view(more@),
{
    let ghost start = objects_view(objects@);
    let mut i: usize = 0;
    assert(objects_view(more@).take(0) =~= Seq::<ObjectView>::empty());
    assert(objects_view(objects@) =~= start + objects_view(more@).take(0));
    while i < more.len()
        invariant
            i <= more.len(),
            objects_view(objects@) == start + objects_view(more@).take(i as int),
        decreases more.len() - i,
    {
        let ghost before = objects_view(objects@);
        objects.push(more[i].clone());
        assert(objects_view(objects@) =~= before.push(objects_view(more@)[i as int]));
        assert(objects_view(more@).take(i + 1) =~= objects_view(more@).take(i as int).push(
            objects_view(more@)[i as int],
        ));
        i += 1;
    }
    assert(objects_view(more@).take(more.len() as int) =~= objects_view(more@));
}

/// Exchanges the objects at positions `i` and `i + 1`.
pub fn exchange(objects: &mut Vec<AnimObject>, i: usize)
    requires
        i + 1 < old(objects).len(),
    ensures
        objects_view(final(objects)@) == exchange_spec(objects_view(old(objects)@), i as int),
        final(objects).len() == old(objects).len(),
{
    let ghost before = objects_view(objects@);
    let upper = objects.remove(i + 1);
    objects.insert(i, upper);
    assert(objects_view(objects@) =~= exchange_spec(before, i as int));
}

/// Rearranges a copy of `objects` around the selection.
pub fn arrange(objects: &Vec<AnimObject>, selected: &Vec<ObjectId>, how: Arrangement) -> (r: Vec<
    AnimObject,
>)
    ensures
        objects_view(r@) == arrange_spec(objects_view(objects@), selected@, how),
{
    match how {
        Arrangement::ToFront => {
            let mut result = pick(objects, selected, false);
            let chosen = pick(objects, selected, true);
            append_objects(&mut result, &chosen);
            result
        },
        Arrangement::ToBack => {
            let mut result = pick(objects, selected, true);
            let rest = pick(objects, selected, false);
            append_objects(&mut result, &rest);
            result
        },
        Arrangement::Forward => {
            let mut result = copy_objects(objects);
            let ghost start = objects_view(objects@);
            let count = result.len();
            assert(objects_view(result@).len() == count);
            let mut index: usize = count;
            while index > 0
                invariant
                    index <= count,
                    result.len() == count,
                    start.len() == count,
                    scan_forward_spec(objects_view(result@), selected@, index - 1)
                        == scan_forward_spec(start, selected@, count - 1),
                decreases index,
            {
                index -= 1;
                let ghost current = objects_view(result@);
                if index + 1 < count && is_selected(selected, result[index].id) && !is_selected(
                    selected,
                    result[index + 1].id,
                ) {
                    exchange(&mut result, index);
                }
                assert(objects_view(result@) == step_forward_spec(current, selected@, index as int));
            }
            result
        },
        Arrangement::Backward => {
            let mut result = copy_objects(objects);
            let ghost start = objects_view(objects@);
            let count = result.len();
            assert(objects_view(result@).len() == count);
            let mut index: usize = 1;
            while index < count
                invariant
                    1 <= index,
                    result.len() == count,
                    start.len() == count,
                    objects_view(result@).len() == count,
                    scan_backward_spec(objects_view(result@), selected@, index as int)
                        == scan_backward_spec(start, selected@, 1),
                decreases count - index,
            {
                let ghost current = objects_view(result@);
                if is_selected(selected, result[index].id) && !is_selected(
                    selected,
                    result[index - 1].id,
                ) {
                    exchange(&mut result, index - 1);
                }
                assert(objects_view(result@) == step_backward_spec(current, selected@, index as int));
                index += 1;
            }
            result
        },
        Arrangement::Delete => pick(objects, selected, false),
    }
}

/// The layer made ready for an edit of the selected objects at `frame`:
/// if the frame shows a selected object, its state is written down as a
/// keyframe.
pub open spec fn prepare_spec(layer: LayerView, frame: u32, selected: Seq<ObjectId>) -> LayerView {
    if resolve_frame_spec(layer, frame) matches Some(objects) && any_selected(objects, selected) {
        ensure_keyframe_spec(layer, frame)
    } else {
        layer
    }
}

/// The layer with `objects` as the objects of its keyframe at `frame`, if
/// it has one.
pub open spec fn with_objects_spec(
    layer: LayerView,
    frame: u32,
    objects: Seq<ObjectView>,
) -> LayerView {
    if layer.keyframes.dom().contains(frame) {
        LayerView {
            keyframes: layer.keyframes.insert(
                frame,
                KeyframeView { objects, ..layer.keyframes[frame] },
            ),
            ..layer
        }
    } else {
        layer
    }
}

/// The layer after its objects at `frame` were rearranged around the
/// selection: it is made ready first; then the objects of its keyframe at
/// `frame`, if it has one, are rearranged.
pub open spec fn arrange_layer_spec(
    layer: LayerView,
    frame: u32,
    selected: Seq<ObjectId>,
    how: Arrangement,
) -> LayerView {
    let prepared = prepare_spec(layer, frame, selected);
    if prepared.keyframes.dom().contains(frame) {
        with_objects_spec(
            prepared,
            frame,
            arrange_spec(prepared.keyframes[frame].objects, selected, how),
        )
    } else {
        prepared
    }
}

/// Every layer after the rearrangement; nothing changes under an empty
/// selection.
pub open spec fn arrange_layers_spec(
    layers: Seq<LayerView>,
    frame: u32,
    selected: Seq<ObjectId>,
    how: Arrangement,
) -> Seq<LayerView> {
    if selected.len() == 0 {
        layers
    } else {
        layers.map_values(|layer: LayerView| arrange_layer_spec(layer, frame, selected, how))
    }
}

/// Writes the state at `frame` down as a keyframe if the frame shows a
/// selected object.
pub fn ensure_keyframe_for_selection(layer: &mut Layer, frame: u32, selected: &Vec<ObjectId>)
    ensures
        final(layer)@ == prepare_spec(old(layer)@, frame, selected@),
{
    let has_match = match resolve_frame(&*layer, frame) {
        Some(objects) => has_selected(&objects, selected),
        None => false,
    };
    if has_match {
        ensure_keyframe_at(layer, frame);
    }
}

/// Replaces the objects of the keyframe at `frame`, if there is one.
pub fn replace_objects(layer: &mut Layer, frame: u32, objects: Vec<AnimObject>)
    ensures
        final(layer)@ == with_objects_spec(old(layer)@, frame, objects_view(objects@)),
{
    assert(keyframes_view(layer.keyframes@).dom() =~= layer.keyframes@.dom());
    let ghost before = layer.keyframes@;
    match layer.keyframes.remove(frame) {
        Some(keyframe) => {
            let changed = Keyframe {
                objects,
                tween: keyframe.tween,
                label: keyframe.label,
                comment: keyframe.comment,
                shape_tween: keyframe.shape_tween,
            };
            layer.keyframes.insert(frame, changed);
            assert(keyframes_view(before.remove(frame).insert(frame, changed)) =~= keyframes_view(
                before,
            ).insert(frame, changed@));
        },
        None => {
            assert(before.remove(frame) =~= before);
        },
    }
}

/// Rearranges the objects of one layer at `frame` around the selection.
pub fn arrange_layer(layer: &mut Layer, frame: u32, selected: &Vec<ObjectId>, how: Arrangement)
    ensures
        final(layer)@ == arrange_layer_spec(old(layer)@, frame, selected@, how),
{
    ensure_keyframe_for_selection(layer, frame, selected);
    assert(keyframes_view(layer.keyframes@).dom() =~= layer.keyframes@.dom());
    let arranged = match layer.keyframes.get(frame) {
        Some(keyframe) => Some(arrange(&keyframe.objects, selected, how)),
        None => None,
    };
    if let Some(objects) = arranged {
        replace_objects(layer, frame, objects);
    }
}

/// Rearranges the objects of every layer at `frame` around the selection.
/// Nothing happens under an empty selection.
pub fn arrange_layers(
    layers: &mut Vec<Layer>,
    frame: u32,
    selected: &Vec<ObjectId>,
    how: Arrangement,
)
    ensures
        layers_view(final(layers)@) == arrange_layers_spec(
            layers_view(old(layers)@),
            frame,
            selected@,
            how,
        ),
{
    if selected.len() == 0 {
        return;
    }
    let ghost before = layers_view(layers@);
    let count = layers.len();
    let mut i: usize = 0;
    while i < count
        invariant
            i <= count,
            layers.len() == count,
            before.len() == count,
            forall|j: int|
                0 <= j < i ==> layers@[j]@ == arrange_layer_spec(before[j], frame, selected@, how),
            forall|j: int| i <= j < count ==> layers@[j]@ == before[j],
        decreases count - i,
    {
        arrange_layer(&mut layers[i], frame, selected, how);
        i += 1;
    }
    assert(layers_view(layers@) =~= arrange_layers_spec(before, frame, selected@, how));
}

/// Puts the selected objects on top of all others of their layers.
pub fn bring_to_front(layers: &mut Vec<Layer>, frame: u32, selected: &Vec<ObjectId>)
    ensures
        layers_view(final(layers)@) == arrange_layers_spec(
            layers_view(old(layers)@),
            frame,
            selected@,
            Arrangement::ToFront,
        ),
{
    arrange_layers(layers, frame, selected, Arrangement::ToFront);
}

/// Puts the selected objects below all others of their layers.
pub fn send_to_back(layers: &mut Vec<Layer>, frame: u32, selected: &Vec<ObjectId>)
    ensures
        layers_view(final(layers)@) == arrange_layers_spec(
            layers_view(old(layers)@),
            frame,
            selected@,
            Arrangement::ToBack,
        ),
{
    arrange_layers(layers, frame, selected, Arrangement::ToBack);
}

/// Moves each selected object above the unselected object that is right
/// above it.
pub fn bring_forward(layers: &mut Vec<Layer>, frame: u32, selected: &Vec<ObjectId>)
    ensures
        layers_view(final(layers)@) == arrange_layers_spec(
            layers_view(old(layers)@),
            frame,
            selected@,
            Arrangement::Forward,
        ),
{
    arrange_layers(layers, frame, selected, Arrangement::Forward);
}

/// Moves each selected object below the unselected object that is right
/// below it.
pub fn send_backward(layers: &mut Vec<Layer>, frame: u32, selected: &Vec<ObjectId>)
    ensures
        layers_view(final(layers)@) == arrange_layers_spec(
            layers_view(old(layers)@),
            frame,
            selected@,
            Arrangement::Backward,
        ),
{
    arrange_layers(layers, frame, selected, Arrangement::Backward);
}

/// Takes the selected objects out of their layers at `frame`.
pub fn delete_selected(layers: &mut Vec<Layer>, frame: u32, selected: &Vec<ObjectId>)
    ensures
        layers_view(final(layers)@) == arrange_layers_spec(
            layers_view(old(layers)@),
            frame,
            selected@,
            Arrangement::Delete,
        ),
{
    arrange_layers(layers, frame, selected, Arrangement::Delete);
}

/// The identifiers of a list of objects.
pub open spec fn ids_of(objects: Seq<ObjectView>) -> Seq<ObjectId> {
    objects.map_values(|o: ObjectView| o.id)
}

/// What one layer shows at `frame`, if it is visible and not locked.
pub open spec fn selectable_spec(layer: LayerView, frame: u32) -> Seq<ObjectView> {
    if layer.visible && !layer.locked {
        match resolve_frame_spec(layer, frame) {
            Some(objects) => objects,
            None => Seq::<ObjectView>::empty(),
        }
    } else {
        Seq::<ObjectView>::empty()
    }
}

/// The identifiers of everything that can be selected at `frame`: the
/// objects that the visible, unlocked layers show, layer by layer.
pub open spec fn select_all_spec(layers: Seq<LayerView>, frame: u32) -> Seq<ObjectId>
    decreases layers.len(),
{
    if layers.len() == 0 {
        Seq::<ObjectId>::empty()
    } else {
        select_all_spec(layers.drop_last(), frame) + ids_of(selectable_spec(layers.last(), frame))
    }
}

/// The selected objects that the layers show at `frame`, layer by layer.
pub open spec fn copy_selected_spec(
    layers: Seq<LayerView>,
    frame: u32,
    selected: Seq<ObjectId>,
) -> Seq<ObjectView>
    decreases layers.len(),
{
    if layers.len() == 0 {
        Seq::<ObjectView>::empty()
    } else {
        copy_selected_spec(layers.drop_last(), frame, selected) + (match resolve_frame_spec(
            layers.last(),
            frame,
        ) {
            Some(objects) => pick_spec(objects, selected, true),
            None => Seq::<ObjectView>::empty(),
        })
    }
}

/// Selects everything that the visible, unlocked layers show at `frame`.
pub fn select_all(layers: &Vec<Layer>, frame: u32) -> (selected: Vec<ObjectId>)
    ensures
        selected@ == select_all_spec(layers_view(layers@), frame),
{
    let ghost all = layers_view(layers@);
    let mut selected: Vec<ObjectId> = Vec::new();
    let mut i: usize = 0;
    assert(all.take(0) =~= Seq::<LayerView>::empty());
    while i < layers.len()
        invariant
            i <= layers.len(),
            all == layers_view(layers@),
            selected@ == select_all_spec(all.take(i as int), frame),
        decreases layers.len() - i,
    {
        let layer = &layers[i];
        let ghost so_far = selected@;
        assert(all.take(i + 1).drop_last() =~= all.take(i as int));
        assert(all.take(i + 1).last() == layer@);
        if layer.visible && !layer.locked {
            if let Some(objects) = resolve_frame(layer, frame) {
                let ghost shown = ids_of(objects_view(objects@));
                let mut j: usize = 0;
                while j < objects.len()
                    invariant
                        j <= objects.len(),
                        shown == ids_of(objects_view(objects@)),
                        selected@ == so_far + shown.take(j as int),
                    decreases objects.len() - j,
                {
                    selected.push(objects[j].id);
                    assert(shown.take(j + 1) =~= shown.take(j as int).push(shown[j as int]));
                    j += 1;
                }
                assert(shown.take(objects.len() as int) =~= shown);
            } else {
                assert(selected@ =~= so_far + Seq::<ObjectId>::empty());
            }
        } else {
            assert(selected@ =~= so_far + Seq::<ObjectId>::empty());
        }
        i += 1;
    }
    assert(all.take(layers.len() as int) =~= all);
    selected
}

/// The objects that were copied last, ready to be pasted.
pub struct Clipboard {
    pub objects: Vec<AnimObject>,
}

impl View for Clipboard {
    type V = Seq<ObjectView>;

    open spec fn view(&self) -> Seq<ObjectView> {
        objects_view(self.objects@)
    }
}

impl Default for Clipboard {
    fn default() -> (r: Self)
        ensures
            r@ == Seq::<ObjectView>::empty(),
    {
        let r = Clipboard { objects: Vec::new() };
        assert(r@ =~= Seq::<ObjectView>::empty());
        r
    }
}

/// The clipboard after a copy: under an empty selection it keeps what it
/// held; otherwise it holds the selected objects that the layers show at
/// `frame`.
pub open spec fn clipboard_after_copy_spec(
    clipboard: Seq<ObjectView>,
    layers: Seq<LayerView>,
    frame: u32,
    selected: Seq<ObjectId>,
) -> Seq<ObjectView> {
    if selected.len() == 0 {
        clipboard
    } else {
        copy_selected_spec(layers, frame, selected)
    }
}

/// Copies the selected objects that the layers show at `frame` to the
/// clipboard. Under an empty selection the clipboard keeps what it held.
pub fn copy_selected(
    clipboard: &mut Clipboard,
    layers: &Vec<Layer>,
    frame: u32,
    selected: &Vec<ObjectId>,
)
    ensures
        final(clipboard)@ == clipboard_after_copy_spec(
            old(clipboard)@,
            layers_view(layers@),
            frame,
            selected@,
        ),
{
    if selected.len() == 0 {
        return;
    }
    let ghost all = layers_view(layers@);
    let mut copied: Vec<AnimObject> = Vec::new();
    assert(objects_view(copied@) =~= Seq::<ObjectView>::empty());
    let mut i: usize = 0;
    assert(all.take(0) =~= Seq::<LayerView>::empty());
    while i < layers.len()
        invariant
            i <= layers.len(),
            all == layers_view(layers@),
            objects_view(copied@) == copy_selected_spec(all.take(i as int), frame, selected@),
        decreases layers.len() - i,
    {
        let layer = &layers[i];
        let ghost so_far = objects_view(copied@);
        assert(all.take(i + 1).drop_last() =~= all.take(i as int));
        assert(all.take(i + 1).last() == layer@);
        if let Some(objects) = resolve_frame(layer, frame) {
            let chosen = pick(&objects, selected, true);
            append_objects(&mut copied, &chosen);
        } else {
            assert(objects_view(copied@) =~= so_far + Seq::<ObjectView>::empty());
        }
        i += 1;
    }
    assert(all.take(layers.len() as int) =~= all);
    clipboard.objects = copied;
}

/// Copies the selected objects to the clipboard and, unless the clipboard
/// is empty afterwards, takes them out of their layers.
pub fn cut_selected(
    clipboard: &mut Clipboard,
    layers: &mut Vec<Layer>,
    frame: u32,
    selected: &Vec<ObjectId>,
)
    ensures
        final(clipboard)@ == clipboard_after_copy_spec(
            old(clipboard)@,
            layers_view(old(layers)@),
            frame,
            selected@,
        ),
        layers_view(final(layers)@) == (if final(clipboard)@.len() == 0 {
            layers_view(old(layers)@)
        } else {
            arrange_layers_spec(layers_view(old(layers)@), frame, selected@, Arrangement::Delete)
        }),
{
    copy_selected(clipboard, &*layers, frame, selected);
    assert(clipboard@.len() == clipboard.objects@.len());
    if clipboard.objects.len() == 0 {
        return;
    }
    delete_selected(layers, frame, selected);
}

/// How far a pasted object lands from the object it was copied from, on
/// each axis.
pub const PASTE_OFFSET: i64 = 10_000_000;

/// A copy of `source` under the identifier `id`, moved by the paste
/// offset.
pub open spec fn pasted_spec(source: ObjectView, id: ObjectId) -> ObjectView {
    ObjectView {
        id,
        position: Vec2 {
            x: saturate(source.position.x + PASTE_OFFSET) as i64,
            y: saturate(source.position.y + PASTE_OFFSET) as i64,
        },
        ..source
    }
}

/// Copies of all of `sources` under the identifiers `ids`.
pub open spec fn all_pasted_spec(sources: Seq<ObjectView>, ids: Seq<ObjectId>) -> Seq<
    ObjectView,
> {
    Seq::new(sources.len(), |i: int| pasted_spec(sources[i], ids[i]))
}

/// The layer after objects were pasted at `frame`: the state at `frame`
/// is written down as a keyframe, and the pasted objects go on top of it.
pub open spec fn paste_spec(layer: LayerView, frame: u32, pasted: Seq<ObjectView>) -> LayerView {
    let prepared = ensure_keyframe_spec(layer, frame);
    with_objects_spec(prepared, frame, prepared.keyframes[frame].objects + pasted)
}

/// Pastes copies of the clipboard's objects into one layer at `frame`,
/// each under a fresh identifier and moved by the paste offset. Returns
/// the identifiers of the copies.
pub fn paste_into(layer: &mut Layer, frame: u32, clipboard: &Vec<AnimObject>) -> (ids: Vec<
    ObjectId,
>)
    ensures
        ids@.len() == clipboard@.len(),
        final(layer)@ == paste_spec(
            old(layer)@,
            frame,
            all_pasted_spec(objects_view(clipboard@), ids@),
        ),
{
    ensure_keyframe_at(layer, frame);
    assert(keyframes_view(layer.keyframes@).dom() =~= layer.keyframes@.dom());
    let mut ids: Vec<ObjectId> = Vec::new();
    let mut objects = match layer.keyframes.get(frame) {
        Some(keyframe) => copy_objects(&keyframe.objects),
        None => Vec::new(),
    };
    let ghost start = objects_view(objects@);
    let ghost sources = objects_view(clipboard@);
    let mut i: usize = 0;
    while i < clipboard.len()
        invariant
            i <= clipboard.len(),
            ids@.len() == i,
            sources == objects_view(clipboard@),
            objects_view(objects@).len() == start.len() + i,
            forall|j: int| 0 <= j < start.len() ==> objects_view(objects@)[j] == start[j],
            forall|j: int|
                0 <= j < i ==> objects_view(objects@)[start.len() + j] == pasted_spec(
                    sources[j],
                    ids@[j],
                ),
        decreases clipboard.len() - i,
    {
        let mut pasted = clipboard[i].clone();
        let id = fresh_id();
        pasted.id = id;
        pasted.position = Vec2 {
            x: saturate_i128((pasted.position.x as i128) + (PASTE_OFFSET as i128)),
            y: saturate_i128((pasted.position.y as i128) + (PASTE_OFFSET as i128)),
        };
        let ghost before = objects_view(objects@);
        ids.push(id);
        objects.push(pasted);
        assert(objects_view(objects@) =~= before.push(pasted@));
        i += 1;
    }
    assert(objects_view(objects@) =~= start + all_pasted_spec(sources, ids@));
    replace_objects(layer, frame, objects);
    ids
}

/// Pastes the clipboard into the layer at position `active_layer`, if
/// there is such a layer and the clipboard is not empty. Returns the
/// identifiers of the pasted copies, which become the selection, or
/// nothing if nothing was pasted.
pub fn paste(layers: &mut Vec<Layer>, active_layer: usize, frame: u32, clipboard: &Clipboard) -> (ids:
    Option<Vec<ObjectId>>)
    ensures
        ids is Some <==> clipboard@.len() > 0 && active_layer < old(layers).len(),
        match ids {
            Some(ids) => ids@.len() == clipboard@.len() && layers_view(final(layers)@)
                == layers_view(old(layers)@).update(
                active_layer as int,
                paste_spec(
                    old(layers)@[active_layer as int]@,
                    frame,
                    all_pasted_spec(clipboard@, ids@),
                ),
            ),
            None => layers_view(final(layers)@) == layers_view(old(layers)@),
        },
{
    assert(clipboard@.len() == clipboard.objects@.len());
    if clipboard.objects.len() == 0 || active_layer >= layers.len() {
        return None;
    }
    let ghost before = layers@;
    let ids = paste_into(&mut layers[active_layer], frame, &clipboard.objects);
    assert(layers_view(layers@) =~= layers_view(before).update(
        active_layer as int,
        paste_spec(before[active_layer as int]@, frame, all_pasted_spec(clipboard@, ids@)),
    ));
    Some(ids)
}

/// Copies the selected objects to the clipboard and pastes the clipboard
/// into the layer at position `active_layer`.
pub fn duplicate_selected(
    clipboard: &mut Clipboard,
    layers: &mut Vec<Layer>,
    active_layer: usize,
    frame: u32,
    selected: &Vec<ObjectId>,
) -> (ids: Option<Vec<ObjectId>>)
    ensures
        final(clipboard)@ == clipboard_after_copy_spec(
            old(clipboard)@,
            layers_view(old(layers)@),
            frame,
            selected@,
        ),
        ids is Some <==> final(clipboard)@.len() > 0 && active_layer < old(layers).len(),
        match ids {
            Some(ids) => ids@.len() == final(clipboard)@.len() && layers_view(final(layers)@)
                == layers_view(old(layers)@).update(
                active_layer as int,
                paste_spec(
                    old(layers)@[active_layer as int]@,
                    frame,
                    all_pasted_spec(final(clipboard)@, ids@),
                ),
            ),
            None => layers_view(final(layers)@) == layers_view(old(layers)@),
        },
{
    copy_selected(clipboard, &*layers, frame, selected);
    paste(layers, active_layer, frame, &*clipboard)
}

/// The layer after `object` was put on top at `frame`: nothing happens to
/// a locked layer; otherwise `frame` gets a keyframe that repeats the one
/// before it, unless it has one, and the object is added to it.
pub open spec fn insert_object_spec(layer: LayerView, frame: u32, object: ObjectView) -> LayerView {
    if layer.locked {
        layer
    } else {
        let prepared = insert_keyframe_spec(layer, frame);
        with_objects_spec(prepared, frame, prepared.keyframes[frame].objects.push(object))
    }
}

/// Puts `object` on top of the layer at position `active_layer` at
/// `frame`, if there is such a layer and it is not locked.
pub fn insert_object(layers: &mut Vec<Layer>, active_layer: usize, frame: u32, object: AnimObject)
    ensures
        layers_view(final(layers)@) == (if active_layer < old(layers).len() {
            layers_view(old(layers)@).update(
                active_layer as int,
                insert_object_spec(old(layers)@[active_layer as int]@, frame, object@),
            )
        } else {
            layers_view(old(layers)@)
        }),
{
    if active_layer >= layers.len() {
        return;
    }
    let ghost before = layers@;
    if !layers[active_layer].locked {
        layers[active_layer].insert_keyframe(frame);
        let ghost prepared = layers@[active_layer as int]@;
        assert(keyframes_view(layers@[active_layer as int].keyframes@).dom()
            =~= layers@[active_layer as int].keyframes@.dom());
        let mut objects = match layers[active_layer].keyframes.get(frame) {
            Some(keyframe) => copy_objects(&keyframe.objects),
            None => Vec::new(),
        };
        let ghost held = objects_view(objects@);
        objects.push(object);
        assert(objects_view(objects@) =~= held.push(object@));
        replace_objects(&mut layers[active_layer], frame, objects);
    }
    assert(layers_view(layers@) =~= layers_view(before).update(
        active_layer as int,
        insert_object_spec(before[active_layer as int]@, frame, object@),
    ));
}

/// A track after the key at `frame` was toggled: a frame without key gets
/// a linearly eased key with `value`; a frame with a key loses it.
pub open spec fn toggle_track_key_spec<T>(
    track: Map<u32, PropertyKey<T>>,
    frame: u32,
    value: T,
) -> Map<u32, PropertyKey<T>> {
    if track.dom().contains(frame) {
        track.remove(frame)
    } else {
        track.insert(frame, PropertyKey { value, tween: TweenType::Linear })
    }
}

/// Toggles the key of a property track at `frame`.
pub fn toggle_track_key<T>(track: &mut Timeline<PropertyKey<T>>, frame: u32, value: T)
    ensures
        final(track)@ == toggle_track_key_spec(old(track)@, frame, value),
{
    if track.contains_key(frame) {
        track.remove(frame);
    } else {
        track.insert(frame, PropertyKey { value, tween: TweenType::Linear });
    }
}

/// A shape without its path point at position `index`: only a path of
/// more than two points that has such a point loses it.
pub open spec fn delete_node_spec(shape: ShapeView, index: int) -> ShapeView {
    match shape {
        ShapeView::Path { points, closed } => if 0 <= index < points.len() && points.len() > 2 {
            ShapeView::Path { points: points.remove(index), closed }
        } else {
            shape
        },
        _ => shape,
    }
}

/// A shape with a corner at `(x, y)` put in at position `index` of its
/// path, if it is a path and `index` is at most its length.
pub open spec fn insert_node_spec(shape: ShapeView, index: int, x: int, y: int) -> ShapeView {
    match shape {
        ShapeView::Path { points, closed } => if 0 <= index <= points.len() {
            ShapeView::Path { points: points.insert(index, corner_spec(x, y)), closed }
        } else {
            shape
        },
        _ => shape,
    }
}

/// A change of the path of one object.
#[derive(Clone, Copy, Debug, PartialEq, Eq, Structural)]
pub enum NodeEdit {
    /// Takes out the point at position `index`.
    Delete { index: usize },
    /// Puts a corner at `(x, y)` in at position `index`.
    Insert { index: usize, x: i64, y: i64 },
}

/// A shape after a change of its path.
pub open spec fn edit_shape_spec(shape: ShapeView, edit: NodeEdit) -> ShapeView {
    match edit {
        NodeEdit::Delete { index } => delete_node_spec(shape, index as int),
        NodeEdit::Insert { index, x, y } => insert_node_spec(shape, index as int, x as int, y as int),
    }
}

/// A list of objects after the path of every object with identifier `id`
/// was changed.
pub open spec fn edit_nodes_spec(objects: Seq<ObjectView>, id: ObjectId, edit: NodeEdit) -> Seq<
    ObjectView,
> {
    Seq::new(
        objects.len(),
        |i: int|
            if objects[i].id == id {
                ObjectView { shape: edit_shape_spec(objects[i].shape, edit), ..objects[i] }
            } else {
                objects[i]
            },
    )
}

/// A layer after the path of every object with identifier `id` in its
/// keyframe at `frame` was changed.
pub open spec fn edit_layer_nodes_spec(
    layer: LayerView,
    frame: u32,
    id: ObjectId,
    edit: NodeEdit,
) -> LayerView {
    with_objects_spec(layer, frame, edit_nodes_spec(layer.keyframes[frame].objects, id, edit))
}

/// Changes the path of a shape.
pub fn edit_shape(shape: &Shape, edit: NodeEdit) -> (r: Shape)
    ensures
        r@ == edit_shape_spec(shape@, edit),
{
    match shape {
        Shape::Path { points, closed } => {
            let mut changed = copy_points(points);
            match edit {
                NodeEdit::Delete { index } => {
                    if index < changed.len() && changed.len() > 2 {
                        changed.remove(index);
                    }
                },
                NodeEdit::Insert { index, x, y } => {
                    if index <= changed.len() {
                        changed.insert(index, corner(x, y));
                    }
                },
            }
            Shape::Path { points: changed, closed: *closed }
        },
        _ => shape.clone(),
    }
}

/// Changes the path of every object with identifier `id` in the keyframe
/// at `frame` of every layer.
pub fn edit_nodes(layers: &mut Vec<Layer>, frame: u32, id: ObjectId, edit: NodeEdit)
    ensures
        layers_view(final(layers)@) == layers_view(old(layers)@).map_values(
            |layer: LayerView| edit_layer_nodes_spec(layer, frame, id, edit),
        ),
{
    let ghost before = layers_view(layers@);
    let count = layers.len();
    let mut i: usize = 0;
    while i < count
        invariant
            i <= count,
            layers.len() == count,
            before.len() == count,
            forall|j: int|
                0 <= j < i ==> layers@[j]@ == edit_layer_nodes_spec(before[j], frame, id, edit),
            forall|j: int| i <= j < count ==> layers@[j]@ == before[j],
        decreases count - i,
    {
        assert(keyframes_view(layers@[i as int].keyframes@).dom()
            =~= layers@[i as int].keyframes@.dom());
        let edited = match layers[i].keyframes.get(frame) {
            Some(keyframe) => {
                let ghost held = objects_view(keyframe.objects@);
                let mut objects: Vec<AnimObject> = Vec::new();
                let mut k: usize = 0;
                while k < keyframe.objects.len()
                    invariant
                        k <= keyframe.objects.len(),
                        held == objects_view(keyframe.objects@),
                        objects@.len() == k,
                        forall|m: int|
                            0 <= m < k ==> objects@[m]@ == edit_nodes_spec(held, id, edit)[m],
                    decreases keyframe.objects.len() - k,
                {
                    let object = &keyframe.objects[k];
                    if object.id == id {
                        objects.push(
                            AnimObject {
                                id: object.id,
                                shape: edit_shape(&object.shape, edit),
                                position: object.position,
                                rotation: object.rotation,
                                scale: object.scale,
                                fill: object.fill.clone(),
                                stroke: object.stroke.clone(),
                                stroke_width: object.stroke_width,
                            },
                        );
                    } else {
                        objects.push(object.clone());
                    }
                    k += 1;
                }
                assert(objects_view(objects@) =~= edit_nodes_spec(held, id, edit));
                Some(objects)
            },
            None => None,
        };
        if let Some(objects) = edited {
            replace_objects(&mut layers[i], frame, objects);
        }
        i += 1;
    }
    assert(layers_view(layers@) =~= before.map_values(
        |layer: LayerView| edit_layer_nodes_spec(layer, frame, id, edit),
    ));
}

/// Takes the path point at position `node_index` out of every object with
/// identifier `object_id` at `frame`, as long as its path keeps two
/// points.
pub fn delete_node(layers: &mut Vec<Layer>, frame: u32, object_id: ObjectId, node_index: usize)
    ensures
        layers_view(final(layers)@) == layers_view(old(layers)@).map_values(
            |layer: LayerView|
                edit_layer_nodes_spec(
                    layer,
                    frame,
                    object_id,
                    NodeEdit::Delete { index: node_index },
                ),
        ),
{
    edit_nodes(layers, frame, object_id, NodeEdit::Delete { index: node_index });
}

/// Puts a corner at `position` into the path of every object with
/// identifier `object_id` at `frame`, at position `at_index`.
pub fn insert_node(
    layers: &mut Vec<Layer>,
    frame: u32,
    object_id: ObjectId,
    at_index: usize,
    position: Vec2,
)
    ensures
        layers_view(final(layers)@) == layers_view(old(layers)@).map_values(
            |layer: LayerView|
                edit_layer_nodes_spec(
                    layer,
                    frame,
                    object_id,
                    NodeEdit::Insert { index: at_index, x: position.x, y: position.y },
                ),
        ),
{
    edit_nodes(
        layers,
        frame,
        object_id,
        NodeEdit::Insert { index: at_index, x: position.x, y: position.y },
    );
}

/// Picking keeps only objects of the wanted kind.
pub proof fn lemma_pick_is_uniform(
    objects: Seq<ObjectView>,
    selected: Seq<ObjectId>,
    wanted: bool,
    i: int,
)
    requires
        0 <= i < pick_spec(objects, selected, wanted).len(),
    ensures
        selected.contains(pick_spec(objects, selected, wanted)[i].id) == wanted,
        objects.contains(pick_spec(objects, selected, wanted)[i]),
    decreases objects.len(),
{
    if objects.len() > 0 {
        let front = pick_spec(objects.drop_last(), selected, wanted);
        if i < front.len() {
            lemma_pick_is_uniform(objects.drop_last(), selected, wanted, i);
            let found = front[i];
            let k = choose|k: int| 0 <= k < objects.drop_last().len() && objects.drop_last()[k]
                == found;
            assert(objects[k] == found);
        } else {
            assert(objects[objects.len() - 1] == objects.last());
        }
    }
}

/// The selected and the unselected objects together are all the objects.
pub proof fn lemma_pick_partitions(objects: Seq<ObjectView>, selected: Seq<ObjectId>)
    ensures
        pick_spec(objects, selected, false).to_multiset().add(
            pick_spec(objects, selected, true).to_multiset(),
        ) =~= objects.to_multiset(),
    decreases objects.len(),
{
    broadcast use vstd::multiset::group_multiset_axioms;
    broadcast use vstd::seq_lib::group_to_multiset_ensures;

    if objects.len() == 0 {
        assert(objects.to_multiset().len() == 0);
    } else {
        let front = objects.drop_last();
        let last = objects.last();
        lemma_pick_partitions(front, selected);
        assert(objects =~= front.push(last));
        let keep = pick_spec(front, selected, false);
        let chosen = pick_spec(front, selected, true);
        if selected.contains(last.id) {
            assert(pick_spec(objects, selected, true) =~= chosen.push(last));
            assert(pick_spec(objects, selected, false) =~= keep);
        } else {
            assert(pick_spec(objects, selected, false) =~= keep.push(last));
            assert(pick_spec(objects, selected, true) =~= chosen);
        }
    }
}

/// Exchanging two neighbours loses no object and adds none.
pub proof fn lemma_exchange_permutes(objects: Seq<ObjectView>, i: int)
    requires
        0 <= i,
        i + 1 < objects.len(),
    ensures
        exchange_spec(objects, i).to_multiset() =~= objects.to_multiset(),
        exchange_spec(objects, i).len() == objects.len(),
{
    broadcast use vstd::multiset::group_multiset_axioms;

    let half = objects.update(i, objects[i + 1]);
    vstd::seq_lib::to_multiset_update(objects, i, objects[i + 1]);
    vstd::seq_lib::to_multiset_update(half, i + 1, objects[i]);
    vstd::seq_lib::to_multiset_contains(objects, objects[i]);
    vstd::seq_lib::to_multiset_contains(objects, objects[i + 1]);
    assert(objects.contains(objects[i]));
    assert(objects.contains(objects[i + 1]));
}

/// Bringing forward loses no object and adds none.
pub proof fn lemma_scan_forward_permutes(objects: Seq<ObjectView>, selected: Seq<ObjectId>, i: int)
    requires
        i < objects.len(),
    ensures
        scan_forward_spec(objects, selected, i).to_multiset() =~= objects.to_multiset(),
    decreases i + 1,
{
    if i >= 0 {
        let stepped = step_forward_spec(objects, selected, i);
        if stepped != objects {
            lemma_exchange_permutes(objects, i);
        }
        lemma_scan_forward_permutes(stepped, selected, i - 1);
    }
}

/// Sending backward loses no object and adds none.
pub proof fn lemma_scan_backward_permutes(
    objects: Seq<ObjectView>,
    selected: Seq<ObjectId>,
    i: int,
)
    ensures
        scan_backward_spec(objects, selected, i).to_multiset() =~= objects.to_multiset(),
    decreases objects.len() - i,
{
    if 0 <= i < objects.len() {
        let stepped = step_backward_spec(objects, selected, i);
        if stepped != objects {
            lemma_exchange_permutes(objects, i - 1);
        }
        lemma_scan_backward_permutes(stepped, selected, i + 1);
    }
}

/// Changing the order of the objects of a keyframe loses no object and
/// adds none: what comes out is a rearrangement of what went in.
pub proof fn lemma_arrange_permutes(
    objects: Seq<ObjectView>,
    selected: Seq<ObjectId>,
    how: Arrangement,
)
    requires
        how != Arrangement::Delete,
    ensures
        arrange_spec(objects, selected, how).to_multiset() =~= objects.to_multiset(),
{
    broadcast use vstd::multiset::group_multiset_axioms;

    let keep = pick_spec(objects, selected, false);
    let chosen = pick_spec(objects, selected, true);
    match how {
        Arrangement::ToFront => {
            lemma_pick_partitions(objects, selected);
            vstd::seq_lib::lemma_multiset_commutative(keep, chosen);
        },
        Arrangement::ToBack => {
            lemma_pick_partitions(objects, selected);
            vstd::seq_lib::lemma_multiset_commutative(chosen, keep);
        },
        Arrangement::Forward => {
            lemma_scan_forward_permutes(objects, selected, objects.len() - 1);
        },
        Arrangement::Backward => {
            lemma_scan_backward_permutes(objects, selected, 1);
        },
        Arrangement::Delete => {},
    }
}

/// After a deletion no selected object is left, and every object that is
/// left was there before.
pub proof fn lemma_delete_leaves_the_unselected(
    objects: Seq<ObjectView>,
    selected: Seq<ObjectId>,
    i: int,
)
    requires
        0 <= i < arrange_spec(objects, selected, Arrangement::Delete).len(),
    ensures
        !selected.contains(arrange_spec(objects, selected, Arrangement::Delete)[i].id),
        objects.contains(arrange_spec(objects, selected, Arrangement::Delete)[i]),
{
    lemma_pick_is_uniform(objects, selected, false, i);
}

} // verus!

//! The data of a project: objects, keyframes, property tracks and layers,
//! each with the mathematical value that contracts speak of.
use std::collections::HashMap;
use vstd::prelude::*;
use crate::easing::TweenType;
use crate::fixed::ONE;
use crate::geometry::Vec2;
use crate::ids::{fresh_id, ObjectId, RANDOM_VERSION_VARIANT, VERSION_VARIANT_MASK};
use crate::paint::{Color, Paint, PaintView};
use crate::shape::{Shape, ShapeView};
use crate::timeline::Timeline;

verus! {

/// What a layer is for.
#[derive(Clone, Copy, Debug, PartialEq, Eq, Structural)]
pub enum LayerType {
    Normal,
    Guide,
    Mask,
    Folder,
}

/// How a layer is composited over the layers below it.
#[derive(Clone, Copy, Debug, PartialEq, Eq, Structural)]
pub enum BlendMode {
    Normal,
    Multiply,
    Screen,
    Overlay,
    Darken,
    Lighten,
    ColorDodge,
    ColorBurn,
    Difference,
    Exclusion,
}

/// The direction of a ruler guide.
#[derive(Clone, Copy, Debug, PartialEq, Eq, Structural)]
pub enum GuideOrientation {
    Horizontal,
    Vertical,
}

/// A way of combining the outlines of two objects.
#[derive(Clone, Copy, Debug, PartialEq, Eq, Structural)]
pub enum BooleanOp {
    Union,
    Subtract,
    Intersect,
    Exclude,
}

/// An object on a layer. Its identifier stays the same from keyframe to
/// keyframe; that is how the two ends of an interpolation are matched.
#[derive(Debug, PartialEq, Eq)]
pub struct AnimObject {
    pub id: ObjectId,
    pub shape: Shape,
    pub position: Vec2,
    pub rotation: i64,
    pub scale: Vec2,
    pub fill: Paint,
    pub stroke: Paint,
    pub stroke_width: i64,
}

/// The mathematical value of an [`AnimObject`].
pub ghost struct ObjectView {
    pub id: ObjectId,
    pub shape: ShapeView,
    pub position: Vec2,
    pub rotation: i64,
    pub scale: Vec2,
    pub fill: PaintView,
    pub stroke: PaintView,
    pub stroke_width: i64,
}

impl View for AnimObject {
    type V = ObjectView;

    open spec fn view(&self) -> ObjectView {
        ObjectView {
            id: self.id,
            shape: self.shape@,
            position: self.position,
            rotation: self.rotation,
            scale: self.scale,
            fill: self.fill@,
            stroke: self.stroke@,
            stroke_width: self.stroke_width,
        }
    }
}

impl Clone for AnimObject {
    fn clone(&self) -> (r: Self)
        ensures
            r@ == self@,
    {
        AnimObject {
            id: self.id,
            shape: self.shape.clone(),
            position: self.position,
            rotation: self.rotation,
            scale: self.scale,
            fill: self.fill.clone(),
            stroke: self.stroke.clone(),
            stroke_width: self.stroke_width,
        }
    }
}

impl AnimObject {
    /// A new object under a fresh random identifier, unrotated and at
    /// scale one.
    pub fn new(shape: Shape, position: Vec2, fill: Paint, stroke: Paint, stroke_width: i64) -> (r:
        Self)
        ensures
            r@ == (ObjectView {
                id: r.id,
                shape: shape@,
                position,
                rotation: 0,
                scale: Vec2 { x: ONE, y: ONE },
                fill: fill@,
                stroke: stroke@,
                stroke_width,
            }),
            r.id & VERSION_VARIANT_MASK == RANDOM_VERSION_VARIANT,
    {
        AnimObject {
            id: fresh_id(),
            shape,
            position,
            rotation: 0,
            scale: Vec2 { x: ONE, y: ONE },
            fill,
            stroke,
            stroke_width,
        }
    }
}

/// The values of a list of objects.
pub open spec fn objects_view(objects: Seq<AnimObject>) -> Seq<ObjectView> {
    objects.map_values(|o: AnimObject| o@)
}

/// Copies a list of objects.
pub fn copy_objects(objects: &Vec<AnimObject>) -> (r: Vec<AnimObject>)
    ensures
        objects_view(r@) == objects_view(objects@),
{
    let mut out: Vec<AnimObject> = Vec::new();
    let mut i: usize = 0;
    while i < objects.len()
        invariant
            i <= objects.len(),
            out@.len() == i,
            forall|j: int| 0 <= j < i ==> out@[j]@ == objects@[j]@,
        decreases objects.len() - i,
    {
        out.push(objects[i].clone());
        i += 1;
    }
    assert(objects_view(out@) =~= objects_view(objects@));
    out
}

/// A complete snapshot of a layer at one frame.
#[derive(Debug, PartialEq, Eq)]
pub struct Keyframe {
    pub objects: Vec<AnimObject>,
    /// The easing of the interval from this keyframe to the next.
    pub tween: TweenType,
    pub label: String,
    pub comment: String,
    /// Whether shapes morph over that interval, or the shapes of this
    /// keyframe are held while the other attributes move.
    pub shape_tween: bool,
}

/// The mathematical value of a [`Keyframe`].
pub ghost struct KeyframeView {
    pub objects: Seq<ObjectView>,
    pub tween: TweenType,
    pub label: Seq<char>,
    pub comment: Seq<char>,
    pub shape_tween: bool,
}

impl View for Keyframe {
    type V = KeyframeView;

    open spec fn view(&self) -> KeyframeView {
        KeyframeView {
            objects: objects_view(self.objects@),
            tween: self.tween,
            label: self.label@,
            comment: self.comment@,
            shape_tween: self.shape_tween,
        }
    }
}

/// A literal keyframe that holds `objects`: no easing, no label, no
/// comment, no shape tween.
pub open spec fn literal_keyframe(objects: Seq<ObjectView>) -> KeyframeView {
    KeyframeView {
        objects,
        tween: TweenType::Hold,
        label: Seq::<char>::empty(),
        comment: Seq::<char>::empty(),
        shape_tween: false,
    }
}

impl Clone for Keyframe {
    fn clone(&self) -> (r: Self)
        ensures
            r@ == self@,
    {
        Keyframe {
            objects: copy_objects(&self.objects),
            tween: self.tween,
            label: self.label.clone(),
            comment: self.comment.clone(),
            shape_tween: self.shape_tween,
        }
    }
}

impl Default for Keyframe {
    fn default() -> (r: Self)
        ensures
            r@ == literal_keyframe(Seq::<ObjectView>::empty()),
    {
        let r = Keyframe {
            objects: Vec::new(),
            tween: TweenType::Hold,
            label: String::new(),
            comment: String::new(),
            shape_tween: false,
        };
        assert(objects_view(r.objects@) =~= Seq::<ObjectView>::empty());
        r
    }
}

/// One key of a property track: a value, and the easing of the interval
/// that leaves it.
#[derive(Debug, PartialEq, Eq)]
pub struct PropertyKey<T> {
    pub value: T,
    pub tween: TweenType,
}

/// The sparse timelines that override single attributes of one object.
pub struct PropertyTracks {
    pub position: Timeline<PropertyKey<Vec2>>,
    pub rotation: Timeline<PropertyKey<i64>>,
    pub scale: Timeline<PropertyKey<Vec2>>,
    pub fill: Timeline<PropertyKey<Paint>>,
    pub stroke: Timeline<PropertyKey<Paint>>,
    pub stroke_width: Timeline<PropertyKey<i64>>,
}

/// The mathematical value of a [`PropertyTracks`].
pub ghost struct TracksView {
    pub position: Map<u32, PropertyKey<Vec2>>,
    pub rotation: Map<u32, PropertyKey<i64>>,
    pub scale: Map<u32, PropertyKey<Vec2>>,
    pub fill: Map<u32, PropertyKey<PaintView>>,
    pub stroke: Map<u32, PropertyKey<PaintView>>,
    pub stroke_width: Map<u32, PropertyKey<i64>>,
}

/// The value of a paint key.
pub open spec fn paint_key_view(key: PropertyKey<Paint>) -> PropertyKey<PaintView> {
    PropertyKey { value: key.value@, tween: key.tween }
}

/// The value of a paint track.
pub open spec fn paint_track_view(track: Map<u32, PropertyKey<Paint>>) -> Map<
    u32,
    PropertyKey<PaintView>,
> {
    track.map_values(|key: PropertyKey<Paint>| paint_key_view(key))
}

impl View for PropertyTracks {
    type V = TracksView;

    open spec fn view(&self) -> TracksView {
        TracksView {
            position: self.position@,
            rotation: self.rotation@,
            scale: self.scale@,
            fill: paint_track_view(self.fill@),
            stroke: paint_track_view(self.stroke@),
            stroke_width: self.stroke_width@,
        }
    }
}

/// Tracks without any key.
pub open spec fn empty_tracks() -> TracksView {
    TracksView {
        position: Map::empty(),
        rotation: Map::empty(),
        scale: Map::empty(),
        fill: Map::empty(),
        stroke: Map::empty(),
        stroke_width: Map::empty(),
    }
}

impl TracksView {
    /// Whether no attribute has a key.
    pub open spec fn is_empty(self) -> bool {
        &&& self.position.dom() =~= Set::<u32>::empty()
        &&& self.rotation.dom() =~= Set::<u32>::empty()
        &&& self.scale.dom() =~= Set::<u32>::empty()
        &&& self.fill.dom() =~= Set::<u32>::empty()
        &&& self.stroke.dom() =~= Set::<u32>::empty()
        &&& self.stroke_width.dom() =~= Set::<u32>::empty()
    }
}

impl Default for PropertyTracks {
    fn default() -> (r: Self)
        ensures
            r@ == empty_tracks(),
    {
        let r = PropertyTracks {
            position: Timeline::new(),
            rotation: Timeline::new(),
            scale: Timeline::new(),
            fill: Timeline::new(),
            stroke: Timeline::new(),
            stroke_width: Timeline::new(),
        };
        assert(paint_track_view(r.fill@) =~= Map::empty());
        assert(paint_track_view(r.stroke@) =~= Map::empty());
        r
    }
}

/// The name of a property if its track has a key, nothing if it has none.
pub open spec fn name_if_keyed(keys: Set<u32>, name: Seq<char>) -> Seq<Seq<char>> {
    if keys =~= Set::<u32>::empty() {
        Seq::<Seq<char>>::empty()
    } else {
        seq![name]
    }
}

/// The names of the properties whose tracks have keys, in the order
/// position, rotation, scale, fill, stroke, stroke width.
pub open spec fn active_property_names_spec(tracks: TracksView) -> Seq<Seq<char>> {
    name_if_keyed(tracks.position.dom(), "Position"@) + name_if_keyed(
        tracks.rotation.dom(),
        "Rotation"@,
    ) + name_if_keyed(tracks.scale.dom(), "Scale"@) + name_if_keyed(tracks.fill.dom(), "Fill"@)
        + name_if_keyed(tracks.stroke.dom(), "Stroke"@) + name_if_keyed(
        tracks.stroke_width.dom(),
        "Stroke W"@,
    )
}

/// The frames at which the property called `name` has keys; none for a
/// name that is not a property's.
pub open spec fn keyframe_frames_spec(tracks: TracksView, name: Seq<char>) -> Set<u32> {
    if name == "Position"@ {
        tracks.position.dom()
    } else if name == "Rotation"@ {
        tracks.rotation.dom()
    } else if name == "Scale"@ {
        tracks.scale.dom()
    } else if name == "Fill"@ {
        tracks.fill.dom()
    } else if name == "Stroke"@ {
        tracks.stroke.dom()
    } else if name == "Stroke W"@ {
        tracks.stroke_width.dom()
    } else {
        Set::<u32>::empty()
    }
}

/// The texts of a list of names.
pub open spec fn names_view(names: Seq<&'static str>) -> Seq<Seq<char>> {
    names.map_values(|name: &'static str| name@)
}

/// Whether two texts are the same.
pub fn same_text(a: &str, b: &str) -> (r: bool)
    ensures
        r == (a@ == b@),
{
    a.to_owned() == b.to_owned()
}

impl PropertyTracks {
    /// Whether no attribute has a key.
    pub fn is_empty(&self) -> (r: bool)
        ensures
            r == self@.is_empty(),
    {
        self.position.is_empty() && self.rotation.is_empty() && self.scale.is_empty()
            && self.fill.is_empty() && self.stroke.is_empty() && self.stroke_width.is_empty()
    }

    /// The names of the properties that have keys.
    pub fn active_property_names(&self) -> (names: Vec<&'static str>)
        ensures
            names_view(names@) == active_property_names_spec(self@),
    {
        let mut names: Vec<&'static str> = Vec::new();
        assert(names_view(names@) =~= Seq::<Seq<char>>::empty());
        if !self.position.is_empty() {
            names.push("Position");
        }
        assert(names_view(names@) =~= name_if_keyed(self@.position.dom(), "Position"@));
        let ghost so_far = names_view(names@);
        if !self.rotation.is_empty() {
            names.push("Rotation");
        }
        assert(names_view(names@) =~= so_far + name_if_keyed(self@.rotation.dom(), "Rotation"@));
        let ghost so_far = names_view(names@);
        if !self.scale.is_empty() {
            names.push("Scale");
        }
        assert(names_view(names@) =~= so_far + name_if_keyed(self@.scale.dom(), "Scale"@));
        let ghost so_far = names_view(names@);
        if !self.fill.is_empty() {
            names.push("Fill");
        }
        assert(names_view(names@) =~= so_far + name_if_keyed(self@.fill.dom(), "Fill"@));
        let ghost so_far = names_view(names@);
        if !self.stroke.is_empty() {
            names.push("Stroke");
        }
        assert(names_view(names@) =~= so_far + name_if_keyed(self@.stroke.dom(), "Stroke"@));
        let ghost so_far = names_view(names@);
        if !self.stroke_width.is_empty() {
            names.push("Stroke W");
        }
        assert(names_view(names@) =~= so_far + name_if_keyed(
            self@.stroke_width.dom(),
            "Stroke W"@,
        ));
        names
    }

    /// The frames at which the property called `property_name` has keys,
    /// in increasing order.
    pub fn keyframe_frames_for(&self, property_name: &str) -> (frames: Vec<u32>)
        ensures
            forall|i: int, j: int| 0 <= i < j < frames@.len() ==> frames@[i] < frames@[j],
            forall|k: u32|
                frames@.contains(k) <==> keyframe_frames_spec(self@, property_name@).contains(k),
    {
        if same_text(property_name, "Position") {
            self.position.frames()
        } else if same_text(property_name, "Rotation") {
            self.rotation.frames()
        } else if same_text(property_name, "Scale") {
            self.scale.frames()
        } else if same_text(property_name, "Fill") {
            self.fill.frames()
        } else if same_text(property_name, "Stroke") {
            self.stroke.frames()
        } else if same_text(property_name, "Stroke W") {
            self.stroke_width.frames()
        } else {
            Vec::new()
        }
    }
}

/// A layer: a timeline of keyframes, and the property tracks of its
/// objects.
pub struct Layer {
    pub id: ObjectId,
    pub name: String,
    pub visible: bool,
    pub locked: bool,
    pub opacity: i64,
    pub keyframes: Timeline<Keyframe>,
    pub layer_type: LayerType,
    pub blend_mode: BlendMode,
    pub parent_id: Option<ObjectId>,
    pub collapsed: bool,
    pub property_tracks: HashMap<ObjectId, PropertyTracks>,
}

/// The mathematical value of a [`Layer`].
pub ghost struct LayerView {
    pub id: ObjectId,
    pub name: Seq<char>,
    pub visible: bool,
    pub locked: bool,
    pub opacity: i64,
    pub keyframes: Map<u32, KeyframeView>,
    pub layer_type: LayerType,
    pub blend_mode: BlendMode,
    pub parent_id: Option<ObjectId>,
    pub collapsed: bool,
    pub property_tracks: Map<ObjectId, TracksView>,
}

/// The values of a timeline of keyframes.
pub open spec fn keyframes_view(keyframes: Map<u32, Keyframe>) -> Map<u32, KeyframeView> {
    keyframes.map_values(|k: Keyframe| k@)
}

/// The values of the property tracks of a layer.
pub open spec fn tracks_view(tracks: Map<ObjectId, PropertyTracks>) -> Map<ObjectId, TracksView> {
    tracks.map_values(|t: PropertyTracks| t@)
}

impl View for Layer {
    type V = LayerView;

    open spec fn view(&self) -> LayerView {
        LayerView {
            id: self.id,
            name: self.name@,
            visible: self.visible,
            locked: self.locked,
            opacity: self.opacity,
            keyframes: keyframes_view(self.keyframes@),
            layer_type: self.layer_type,
            blend_mode: self.blend_mode,
            parent_id: self.parent_id,
            collapsed: self.collapsed,
            property_tracks: tracks_view(self.property_tracks@),
        }
    }
}

impl Layer {
    /// A new, visible, unlocked, opaque layer under a fresh random
    /// identifier, without keyframes or tracks.
    pub fn new(name: String) -> (r: Self)
        ensures
            r@ == (LayerView {
                id: r.id,
                name: name@,
                visible: true,
                locked: false,
                opacity: ONE,
                keyframes: Map::empty(),
                layer_type: LayerType::Normal,
                blend_mode: BlendMode::Normal,
                parent_id: None,
                collapsed: false,
                property_tracks: Map::empty(),
            }),
            r.id & VERSION_VARIANT_MASK == RANDOM_VERSION_VARIANT,
    {
        let r = Layer {
            id: fresh_id(),
            name,
            visible: true,
            locked: false,
            opacity: ONE,
            keyframes: Timeline::new(),
            layer_type: LayerType::Normal,
            blend_mode: BlendMode::Normal,
            parent_id: None,
            collapsed: false,
            property_tracks: HashMap::new(),
        };
        assert(keyframes_view(r.keyframes@) =~= Map::empty());
        assert(tracks_view(r.property_tracks@) =~= Map::empty());
        r
    }
}

/// A ruler guide.
#[derive(Clone, Copy, Debug, PartialEq, Eq, Structural)]
pub struct Guide {
    pub id: ObjectId,
    pub orientation: GuideOrientation,
    pub position: i64,
}

/// The pose of the camera at one frame.
#[derive(Clone, Copy, Debug, PartialEq, Eq, Structural)]
pub struct CameraKeyframe {
    pub position: Vec2,
    pub zoom: i64,
    pub rotation: i64,
}

/// A scene: layers with a length of their own.
pub struct Scene {
    pub id: ObjectId,
    pub name: String,
    pub layers: Vec<Layer>,
    pub total_frames: u32,
}

/// A reusable animation that objects can be instances of.
pub struct Symbol {
    pub id: ObjectId,
    pub name: String,
    pub layers: Vec<Layer>,
    pub total_frames: u32,
    pub width: i64,
    pub height: i64,
}

/// The symbols of a project.
pub struct Library {
    pub symbols: Vec<Symbol>,
}

/// An encoded image that raster shapes refer to.
pub struct ImageAsset {
    pub id: ObjectId,
    pub name: String,
    pub data: Vec<u8>,
    pub width: u32,
    pub height: u32,
}

/// A bone of an armature.
pub struct Bone {
    pub id: ObjectId,
    pub name: String,
    pub parent_bone_id: Option<ObjectId>,
    pub position: Vec2,
    pub length: i64,
    pub rotation: i64,
    pub bound_object_ids: Vec<ObjectId>,
}

/// A skeleton of bones.
pub struct Armature {
    pub id: ObjectId,
    pub name: String,
    pub bones: Vec<Bone>,
}

/// An encoded sound that starts at a frame.
pub struct AudioTrack {
    pub id: ObjectId,
    pub name: String,
    pub data: Vec<u8>,
    pub start_frame: u32,
    pub volume: i64,
}

/// A whole project.
pub struct Project {
    pub name: String,
    pub canvas_width: u32,
    pub canvas_height: u32,
    pub background_color: Color,
    pub frame_rate: u32,
    pub total_frames: u32,
    pub layers: Vec<Layer>,
    pub guides: Vec<Guide>,
    pub camera_keyframes: Timeline<CameraKeyframe>,
    pub camera_tween: TweenType,
    pub scenes: Vec<Scene>,
    pub active_scene: usize,
    pub library: Library,
    pub image_assets: Vec<ImageAsset>,
    pub loop_start: Option<u32>,
    pub loop_end: Option<u32>,
    pub audio_tracks: Vec<AudioTrack>,
    pub armatures: Vec<Armature>,
}

impl Default for Project {
    /// An untitled project of 120 frames at 24 frames a second on a white
    /// canvas of 1920 by 1080, with one layer that has an empty keyframe
    /// at frame zero, and no camera keys.
    fn default() -> (r: Self)
        ensures
            r.name@ == "Untitled"@,
            r.canvas_width == 1920,
            r.canvas_height == 1080,
            r.background_color == (Color { r: ONE, g: ONE, b: ONE, a: ONE }),
            r.frame_rate == 24,
            r.total_frames == 120,
            r.layers@.len() == 1,
            r.layers@[0]@ == (LayerView {
                id: r.layers@[0].id,
                name: "Layer 1"@,
                visible: true,
                locked: false,
                opacity: ONE,
                keyframes: Map::<u32, KeyframeView>::empty().insert(
                    0,
                    literal_keyframe(Seq::<ObjectView>::empty()),
                ),
                layer_type: LayerType::Normal,
                blend_mode: BlendMode::Normal,
                parent_id: None,
                collapsed: false,
                property_tracks: Map::<ObjectId, TracksView>::empty(),
            }),
            r.layers@[0].id & VERSION_VARIANT_MASK == RANDOM_VERSION_VARIANT,
            r.guides@.len() == 0,
            r.camera_keyframes@ == Map::<u32, CameraKeyframe>::empty(),
            r.camera_tween == TweenType::Hold,
            r.scenes@.len() == 0,
            r.active_scene == 0,
            r.library.symbols@.len() == 0,
            r.image_assets@.len() == 0,
            r.loop_start is None,
            r.loop_end is None,
            r.audio_tracks@.len() == 0,
            r.armatures@.len() == 0,
    {
        let mut layer = Layer::new("Layer 1".to_owned());
        let keyframe = Keyframe::default();
        let ghost before = layer.keyframes@;
        layer.keyframes.insert(0, keyframe);
        assert(keyframes_view(before.insert(0, keyframe)) =~= keyframes_view(before).insert(
            0,
            keyframe@,
        ));
        let mut layers: Vec<Layer> = Vec::new();
        layers.push(layer);
        Project {
            name: "Untitled".to_owned(),
            canvas_width: 1920,
            canvas_height: 1080,
            background_color: Color { r: ONE, g: ONE, b: ONE, a: ONE },
            frame_rate: 24,
            total_frames: 120,
            layers,
            guides: Vec::new(),
            camera_keyframes: Timeline::new(),
            camera_tween: TweenType::Hold,
            scenes: Vec::new(),
            active_scene: 0,
            library: Library { symbols: Vec::new() },
            image_assets: Vec::new(),
            loop_start: None,
            loop_end: None,
            audio_tracks: Vec::new(),
            armatures: Vec::new(),
        }
    }
}

} // verus!

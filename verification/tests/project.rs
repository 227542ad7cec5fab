use animate::easing::TweenType;
use animate::fixed::ONE;
use animate::geometry::Vec2;
use animate::paint::{Color, Paint};
use animate::project::{
    copy_objects, same_text, AnimObject, BlendMode, BooleanOp, GuideOrientation, Keyframe, Layer,
    LayerType, Project, PropertyKey, PropertyTracks,
};
use animate::shape::{corner, FontFamily, Shape};

fn is_random_identifier(id: u128) -> bool {
    (id >> 76) & 0xF == 4 && (id >> 62) & 0x3 == 2
}

#[test]
fn new_object_has_a_fresh_identifier_and_default_transform() {
    let shape = Shape::Path { points: vec![corner(0, 0), corner(1, 1)], closed: false };
    let fill = Paint::Solid(Color { r: 1, g: 2, b: 3, a: 4 });
    let a = AnimObject::new(shape.clone(), Vec2 { x: 5, y: 6 }, fill.clone(), Paint::default(), 7);
    let b = AnimObject::new(shape.clone(), Vec2 { x: 5, y: 6 }, fill.clone(), Paint::default(), 7);
    assert_eq!(a.shape, shape);
    assert_eq!(a.position, Vec2 { x: 5, y: 6 });
    assert_eq!(a.rotation, 0);
    assert_eq!(a.scale, Vec2 { x: ONE, y: ONE });
    assert_eq!(a.fill, fill);
    assert_eq!(a.stroke, Paint::default());
    assert_eq!(a.stroke_width, 7);
    assert!(is_random_identifier(a.id));
    assert!(is_random_identifier(b.id));
    assert_ne!(a.id, b.id);
}

#[test]
fn new_layer_is_visible_and_empty() {
    let l = Layer::new("Background".to_string());
    assert_eq!(l.name, "Background");
    assert!(l.visible);
    assert!(!l.locked);
    assert_eq!(l.opacity, ONE);
    assert!(l.keyframes.is_empty());
    assert_eq!(l.layer_type, LayerType::Normal);
    assert_eq!(l.blend_mode, BlendMode::Normal);
    assert_eq!(l.parent_id, None);
    assert!(!l.collapsed);
    assert!(l.property_tracks.is_empty());
    assert!(is_random_identifier(l.id));
    assert_ne!(l.id, Layer::new("Background".to_string()).id);
}

#[test]
fn default_project() {
    let p = Project::default();
    assert_eq!(p.name, "Untitled");
    assert_eq!((p.canvas_width, p.canvas_height), (1920, 1080));
    assert_eq!(p.background_color, Color { r: ONE, g: ONE, b: ONE, a: ONE });
    assert_eq!(p.frame_rate, 24);
    assert_eq!(p.total_frames, 120);
    assert_eq!(p.layers.len(), 1);
    assert_eq!(p.layers[0].name, "Layer 1");
    assert_eq!(p.layers[0].keyframes.frames(), vec![0]);
    assert_eq!(p.layers[0].keyframes.get(0), Some(&Keyframe::default()));
    assert!(p.guides.is_empty());
    assert!(p.camera_keyframes.is_empty());
    assert_eq!(p.camera_tween, TweenType::Hold);
    assert!(p.scenes.is_empty());
    assert_eq!(p.active_scene, 0);
    assert!(p.library.symbols.is_empty());
    assert!(p.image_assets.is_empty());
    assert_eq!((p.loop_start, p.loop_end), (None, None));
    assert!(p.audio_tracks.is_empty());
    assert!(p.armatures.is_empty());
}

#[test]
fn default_keyframe_is_blank() {
    let k = Keyframe::default();
    assert!(k.objects.is_empty());
    assert_eq!(k.tween, TweenType::Hold);
    assert_eq!(k.label, "");
    assert_eq!(k.comment, "");
    assert!(!k.shape_tween);
}

#[test]
fn clones_are_equal() {
    let o = AnimObject {
        id: 3,
        shape: Shape::Text {
            content: "abc".to_string(),
            font_size: 9,
            font_family: FontFamily::Serif,
        },
        position: Vec2 { x: 1, y: 2 },
        rotation: 3,
        scale: Vec2 { x: 4, y: 5 },
        fill: Paint::default(),
        stroke: Paint::Solid(Color { r: 9, g: 8, b: 7, a: 6 }),
        stroke_width: 10,
    };
    assert_eq!(o.clone(), o);
    let k = Keyframe {
        objects: vec![o.clone(), o.clone()],
        tween: TweenType::EaseOut,
        label: "l".to_string(),
        comment: "c".to_string(),
        shape_tween: true,
    };
    assert_eq!(k.clone(), k);
    assert_eq!(copy_objects(&k.objects), k.objects);
    assert_eq!(copy_objects(&vec![]), vec![]);
}

#[test]
fn tracks_report_which_properties_have_keys() {
    let mut t = PropertyTracks::default();
    assert!(t.is_empty());
    assert_eq!(t.active_property_names(), Vec::<&str>::new());
    t.stroke_width.insert(4, PropertyKey { value: ONE, tween: TweenType::Hold });
    assert!(!t.is_empty());
    assert_eq!(t.active_property_names(), vec!["Stroke W"]);
    t.position.insert(1, PropertyKey { value: Vec2 { x: 0, y: 0 }, tween: TweenType::Hold });
    t.fill.insert(2, PropertyKey { value: Paint::default(), tween: TweenType::Hold });
    assert_eq!(t.active_property_names(), vec!["Position", "Fill", "Stroke W"]);
    t.rotation.insert(1, PropertyKey { value: 0, tween: TweenType::Hold });
    t.scale.insert(1, PropertyKey { value: Vec2 { x: 0, y: 0 }, tween: TweenType::Hold });
    t.stroke.insert(1, PropertyKey { value: Paint::default(), tween: TweenType::Hold });
    assert_eq!(
        t.active_property_names(),
        vec!["Position", "Rotation", "Scale", "Fill", "Stroke", "Stroke W"]
    );
}

#[test]
fn tracks_list_the_frames_of_a_named_property() {
    let mut t = PropertyTracks::default();
    t.rotation.insert(9, PropertyKey { value: 0, tween: TweenType::Hold });
    t.rotation.insert(3, PropertyKey { value: 0, tween: TweenType::Linear });
    t.stroke_width.insert(4, PropertyKey { value: ONE, tween: TweenType::Hold });
    t.stroke.insert(6, PropertyKey { value: Paint::default(), tween: TweenType::Hold });
    assert_eq!(t.keyframe_frames_for("Rotation"), vec![3, 9]);
    assert_eq!(t.keyframe_frames_for("Stroke W"), vec![4]);
    assert_eq!(t.keyframe_frames_for("Stroke"), vec![6]);
    assert_eq!(t.keyframe_frames_for("Position"), Vec::<u32>::new());
    assert_eq!(t.keyframe_frames_for("Scale"), Vec::<u32>::new());
    assert_eq!(t.keyframe_frames_for("Fill"), Vec::<u32>::new());
    assert_eq!(t.keyframe_frames_for("rotation"), Vec::<u32>::new());
    assert_eq!(t.keyframe_frames_for(""), Vec::<u32>::new());
}

#[test]
fn same_text_compares_contents() {
    assert!(same_text("Fill", "Fill"));
    assert!(!same_text("Fill", "fill"));
    assert!(!same_text("Fill", "Fil"));
    assert!(same_text("", ""));
}

#[test]
fn plain_enumerations() {
    assert_ne!(LayerType::Guide, LayerType::Mask);
    assert_ne!(BlendMode::Multiply, BlendMode::Screen);
    assert_ne!(GuideOrientation::Horizontal, GuideOrientation::Vertical);
    assert_ne!(BooleanOp::Union, BooleanOp::Exclude);
    assert_ne!(FontFamily::Serif, FontFamily::SansSerif);
    let kinds = [LayerType::Normal, LayerType::Guide, LayerType::Mask, LayerType::Folder];
    assert_eq!(kinds.len(), 4);
}

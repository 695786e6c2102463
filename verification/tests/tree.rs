use aframe::assets::{Asset, AssetItem, Assets, Audio, Image, Mixin, Preload, Video};
use aframe::component::{Component, Field, Value};
use aframe::entity::Entity;
use aframe::htmlify::Attribute;
use aframe::num::Number;
use aframe::scene::Scene;

fn num(i: i64) -> Number {
    Number::from_int(i)
}

/// A positional template component of three numbers, as position, rotation
/// and scale are declared.
fn triple(kind: &str, x: i64, y: i64, z: i64) -> Component {
    Component {
        kind: kind.to_string(),
        parts: Some(vec![
            "".to_string(),
            " ".to_string(),
            " ".to_string(),
            "".to_string(),
        ]),
        fields: vec![
            Field {
                key: "x".to_string(),
                value: Value::Number(num(x)),
                default: Value::Number(num(0)),
            },
            Field {
                key: "y".to_string(),
                value: Value::Number(num(y)),
                default: Value::Number(num(0)),
            },
            Field {
                key: "z".to_string(),
                value: Value::Number(num(z)),
                default: Value::Number(num(0)),
            },
        ],
    }
}

#[test]
fn entity_cmp() {
    let child_ent = Entity::new(
        vec![Attribute::new("child_attr", "child_val")],
        vec![("child_cmp".to_string(), triple("rotation", 9, 55, 44))],
        vec![],
    );

    let ent = Entity::new(
        vec![Attribute::new("test_attr", "test_val")],
        vec![("test_cmp".to_string(), triple("position", 1, 2, 3))],
        vec![child_ent.clone()],
    );

    assert_eq!(
        ent,
        Entity::new(
            vec![Attribute::new("test_attr", "test_val")],
            vec![("test_cmp".to_string(), triple("position", 1, 2, 3))],
            vec![child_ent],
        )
    );
    assert_ne!(
        ent,
        Entity::new(
            vec![Attribute::new("test_attr_2", "test_val_2")],
            vec![("test_cmp_2".to_string(), triple("position", 1, 2, 3))],
            vec![],
        )
    );
}

#[test]
fn primitive_entity_renders_expected_markup() {
    let ent = Entity::new_primitive(
        "a-box",
        vec![Attribute::new("id", "my-box")],
        vec![],
        vec![],
    );
    assert_eq!(ent.as_raw_html(), "<a-box id=\"my-box\"> </a-box>");
}

#[test]
fn generic_entity_uses_default_tag_and_merges_components_first() {
    let ent = Entity::new(
        vec![Attribute::new("id", "p")],
        vec![("position".to_string(), triple("position", 1, 2, 3))],
        vec![],
    );
    assert_eq!(ent.tag(), "a-entity");
    let rendered = ent.render();
    assert_eq!(rendered.attributes.len(), 2);
    assert_eq!(rendered.attributes[0].name, "position");
    assert_eq!(rendered.attributes[0].value, "1 2 3");
    assert_eq!(rendered.attributes[1].name, "id");
    assert_eq!(ent.as_raw_html(), "<a-entity position=\"1 2 3\" id=\"p\"> </a-entity>");
}

#[test]
fn empty_attribute_value_renders_bare_name() {
    let a = Attribute::new("autoplay", "");
    assert_eq!(a.to_html_string(), "autoplay");
    let b = Attribute::new("id", "x");
    assert_eq!(b.to_html_string(), "id=\"x\"");
}

#[test]
fn scene_emits_assets_node_first_even_when_empty() {
    let scene = Scene::new(vec![], Assets::empty(), vec![], vec![]);
    let rendered = scene.render();
    assert_eq!(rendered.tag, "a-scene");
    assert_eq!(rendered.children.len(), 1);
    assert_eq!(rendered.children[0].tag, "a-assets");
    assert_eq!(
        scene.as_raw_html(),
        "<a-scene > <a-assets > </a-assets> </a-scene>"
    );
}

#[test]
fn scene_children_follow_the_assets_node() {
    let scene = Scene::new(
        vec![Attribute::new("embedded", "true")],
        Assets::empty(),
        vec![],
        vec![
            Entity::new(vec![Attribute::new("id", "first")], vec![], vec![]),
            Entity::new(vec![Attribute::new("id", "second")], vec![], vec![]),
        ],
    );
    let rendered = scene.render();
    assert_eq!(rendered.children.len(), 3);
    assert_eq!(rendered.children[0].tag, "a-assets");
    assert_eq!(rendered.children[1].attributes[0].value, "first");
    assert_eq!(rendered.children[2].attributes[0].value, "second");
}

#[test]
fn assets_timeout_appears_only_when_positive() {
    let none = Assets::new(0, vec![]);
    assert_eq!(none.attributes().len(), 0);
    let with_timeout = Assets::new(500, vec![]);
    let attrs = with_timeout.attributes();
    assert_eq!(attrs.len(), 1);
    assert_eq!(attrs[0].name, "timeout");
    assert_eq!(attrs[0].value, "500");
}

#[test]
fn asset_constructors_set_tags_and_sources() {
    let item = AssetItem::new("i", "/a.obj");
    assert_eq!(item.tag(), "a-asset-item");
    assert_eq!(item.src(), "/a.obj");
    let image = Image::new("pic", "/p.png");
    assert_eq!(image.tag(), "img");
    let video = Video::new("v", "/v.mp4");
    assert_eq!(video.tag(), "video");
    let audio = Audio::new("m", "/m.mp3");
    assert_eq!(audio.tag(), "audio");
    let mixin = Mixin::new("mix", vec![]);
    assert_eq!(mixin.tag(), "a-mixin");
    assert_eq!(mixin.src(), "");
}

#[test]
fn video_attributes_always_carry_autoplay_and_preload() {
    let video = Video::preload("v", "/v.mp4", Preload::Auto);
    let attrs = video.attributes();
    let names: Vec<&str> = attrs.iter().map(|a| a.name.as_str()).collect();
    assert_eq!(names, vec!["id", "src", "autoplay", "preload"]);
    assert_eq!(attrs[2].value, "false");
    assert_eq!(attrs[3].value, "auto");
}

#[test]
fn audio_attributes_carry_autoplay_and_preload_only_when_set() {
    let quiet = Audio::new("m", "/m.mp3");
    let names: Vec<String> = quiet.attributes().iter().map(|a| a.name.clone()).collect();
    assert_eq!(names, vec!["id", "src"]);

    let auto = Audio::autoplay("m", "/m.mp3");
    let names: Vec<String> = auto.attributes().iter().map(|a| a.name.clone()).collect();
    assert_eq!(names, vec!["id", "src", "autoplay"]);

    let preloading = Audio::preload("m", "/m.mp3", Preload::Metadata);
    let attrs = preloading.attributes();
    assert_eq!(attrs[2].name, "preload");
    assert_eq!(attrs[2].value, "metadata");
}

#[test]
fn mixin_renders_id_before_component_attributes() {
    let mixin = Mixin::new(
        "hover",
        vec![("position".to_string(), triple("position", 0, 1, 0))],
    );
    let attrs = mixin.attributes();
    assert_eq!(attrs.len(), 2);
    assert_eq!(attrs[0].name, "id");
    assert_eq!(attrs[0].value, "hover");
    assert_eq!(attrs[1].name, "position");
    assert_eq!(attrs[1].value, "0 1 0");
}

#[test]
fn scene_markup_nests_assets_and_entities() {
    let scene = Scene::new(
        vec![],
        Assets::new(0, vec![Image::new("pic", "/p.png")]),
        vec![],
        vec![Entity::new_primitive(
            "a-box",
            vec![Attribute::new("id", "my-box")],
            vec![],
            vec![],
        )],
    );
    assert_eq!(
        scene.as_raw_html(),
        "<a-scene > <a-assets > <img id=\"pic\" src=\"/p.png\"> </img> </a-assets>\
<a-box id=\"my-box\"> </a-box> </a-scene>"
    );
}

#[test]
fn entity_clone_copies_the_whole_subtree() {
    let child = Entity::new(
        vec![Attribute::new("id", "c")],
        vec![],
        vec![],
    );
    let parent = Entity::new(
        vec![Attribute::new("id", "p")],
        vec![("position".to_string(), triple("position", 1, 1, 1))],
        vec![child],
    );
    let mut copy = parent.clone();
    assert_eq!(parent, copy);
    copy.children_mut().clear();
    assert_ne!(parent, copy);
    assert_eq!(parent.children().len(), 1);
}

#[test]
fn scene_accessors_expose_all_parts() {
    let mut scene = Scene::with_components(vec![]);
    assert_eq!(scene.attributes().len(), 0);
    assert_eq!(scene.components().len(), 0);
    assert_eq!(scene.children().len(), 0);
    assert_eq!(scene.assets().assets.len(), 0);
    scene.attributes_mut().push(Attribute::new("embedded", "true"));
    scene.children_mut().push(Entity::with_components(vec![]));
    scene.components_mut().push((
        "position".to_string(),
        triple("position", 0, 0, 0),
    ));
    scene.assets_mut().assets.push(Image::new("pic", "/p.png"));
    assert_eq!(scene.attributes().len(), 1);
    assert_eq!(scene.components().len(), 1);
    assert_eq!(scene.children().len(), 1);
    assert_eq!(scene.assets().assets.len(), 1);
}

#[test]
fn asset_equality_distinguishes_kinds() {
    let a = Image::new("x", "/p.png");
    let b = AssetItem::new("x", "/p.png");
    assert!(a != b);
    let c = Image::new("x", "/p.png");
    assert!(a == c);
    match a {
        Asset::Image(ref img) => assert_eq!(img.id, "x"),
        _ => panic!("expected an image asset"),
    }
}

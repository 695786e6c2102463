use aframe::component::{Component, Field, MaterialProps, Value, VariantValue};
use aframe::num::Number;
use aframe::utils::{Vector2, Vector3, Vector4};

fn num(i: i64) -> Number {
    Number::from_int(i)
}

fn dec(mantissa: i64, scale: u32) -> Number {
    Number::decimal(mantissa, scale)
}

fn text(s: &str) -> Value {
    Value::Text(s.to_string())
}

#[test]
fn number_whole_values_have_no_fraction() {
    assert_eq!(num(1).encode(), "1");
    assert_eq!(num(0).encode(), "0");
    assert_eq!(num(-3).encode(), "-3");
    assert_eq!(num(1000).encode(), "1000");
}

#[test]
fn number_fractions_encode_minimally() {
    assert_eq!(dec(25, 1).encode(), "2.5");
    assert_eq!(dec(-25, 1).encode(), "-2.5");
    assert_eq!(dec(1, 3).encode(), "0.001");
    assert_eq!(dec(500, 3).encode(), "0.5");
    assert_eq!(dec(2500, 3).encode(), "2.5");
    assert_eq!(dec(1000, 3).encode(), "1");
}

#[test]
fn vector3_encodes_space_separated() {
    let v = Vector3 { x: num(1), y: dec(25, 1), z: num(-3) };
    assert_eq!(v.encode(), "1 2.5 -3");
}

#[test]
fn vector2_and_vector4_encode_space_separated() {
    let v2 = Vector2 { x: num(0), y: dec(15, 1) };
    assert_eq!(v2.encode(), "0 1.5");
    let v4 = Vector4 { x: num(1), y: num(2), z: num(3), w: num(4) };
    assert_eq!(v4.encode(), "1 2 3 4");
}

#[test]
fn empty_list_encodes_as_empty_string() {
    assert_eq!(Value::List(vec![]).encode(), "");
}

#[test]
fn two_item_text_list_encodes_comma_separated() {
    let list = Value::List(vec![text("a"), text("b")]);
    assert_eq!(list.encode(), "a,b");
}

#[test]
fn list_of_numbers_has_no_trailing_separator() {
    let list = Value::List(vec![Value::Integer(1), Value::Integer(2), Value::Integer(3)]);
    assert_eq!(list.encode(), "1,2,3");
}

#[test]
fn booleans_encode_as_literal_tokens() {
    assert_eq!(Value::Boolean(true).encode(), "true");
    assert_eq!(Value::Boolean(false).encode(), "false");
}

#[test]
fn material_props_encode_as_key_value_segments() {
    let props = MaterialProps(vec![
        ("color".to_string(), "lightblue".to_string()),
        ("src".to_string(), "#ramen".to_string()),
    ]);
    assert_eq!(props.encode(), "color: lightblue; src: #ramen; ");
}

/// The point-light variant used by the light component.
fn point_light_variant() -> Value {
    let no_cast = VariantValue {
        label: "NoCast".to_string(),
        parts: vec!["castShadow: false;".to_string()],
        args: vec![],
    };
    Value::Variant(VariantValue {
        label: "Point".to_string(),
        parts: vec![
            "type: point; decay: ".to_string(),
            "; distance: ".to_string(),
            "; ".to_string(),
            "".to_string(),
        ],
        args: vec![Value::Number(num(1)), Value::Number(num(50)), Value::Variant(no_cast)],
    })
}

fn directional_light_variant() -> Value {
    let no_cast = VariantValue {
        label: "NoCast".to_string(),
        parts: vec!["castShadow: false;".to_string()],
        args: vec![],
    };
    Value::Variant(VariantValue {
        label: "Directional".to_string(),
        parts: vec!["type: directional; ".to_string(), "".to_string()],
        args: vec![Value::Variant(no_cast)],
    })
}

#[test]
fn point_variant_flattens_into_single_string() {
    assert_eq!(
        point_light_variant().encode(),
        "type: point; decay: 1; distance: 50; castShadow: false;"
    );
}

fn light_component(light_type: Value) -> Component {
    Component {
        kind: "light".to_string(),
        parts: None,
        fields: vec![
            Field {
                key: "".to_string(),
                value: light_type,
                default: directional_light_variant(),
            },
            Field {
                key: "color".to_string(),
                value: text("#FFF"),
                default: text("#FFF"),
            },
            Field {
                key: "intensity".to_string(),
                value: Value::Number(num(1)),
                default: Value::Number(num(1)),
            },
        ],
    }
}

#[test]
fn light_component_splices_variant_as_flattened_sub_value() {
    let light = light_component(point_light_variant());
    assert_eq!(
        light.encode(),
        "type: point; decay: 1; distance: 50; castShadow: false;;"
    );
}

fn sound_component(src: &str, volume: Number) -> Component {
    Component {
        kind: "sound".to_string(),
        parts: None,
        fields: vec![
            Field { key: "src".to_string(), value: text(src), default: text("") },
            Field {
                key: "volume".to_string(),
                value: Value::Number(volume),
                default: Value::Number(num(1)),
            },
        ],
    }
}

#[test]
fn default_valued_fields_are_omitted_from_delta_output() {
    let all_default = sound_component("", num(1));
    assert_eq!(all_default.encode(), "");
}

#[test]
fn single_changed_field_emits_exactly_one_segment() {
    let one_change = sound_component("", dec(5, 1));
    assert_eq!(one_change.encode(), "volume: 0.5; ");
}

#[test]
fn template_mode_substitutes_fields_positionally() {
    let position = Component {
        kind: "position".to_string(),
        parts: Some(vec![
            "".to_string(),
            " ".to_string(),
            " ".to_string(),
            "".to_string(),
        ]),
        fields: vec![
            Field {
                key: "x".to_string(),
                value: Value::Number(num(0)),
                default: Value::Number(num(0)),
            },
            Field {
                key: "y".to_string(),
                value: Value::Number(dec(25, 1)),
                default: Value::Number(num(0)),
            },
            Field {
                key: "z".to_string(),
                value: Value::Number(num(-2)),
                default: Value::Number(num(0)),
            },
        ],
    };
    assert_eq!(position.encode(), "0 2.5 -2");
}

#[test]
fn single_character_keys_emit_bare_values() {
    let c = Component {
        kind: "custom".to_string(),
        parts: None,
        fields: vec![Field {
            key: "q".to_string(),
            value: Value::Integer(7),
            default: Value::Integer(0),
        }],
    };
    assert_eq!(c.encode(), "7;");
}

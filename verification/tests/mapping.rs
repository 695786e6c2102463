use aframe::component::{Component, Field, Value, VariantValue};
use aframe::flatten::parse_pairs;
use aframe::num::Number;

fn num(i: i64) -> Number {
    Number::from_int(i)
}

fn text(s: &str) -> Value {
    Value::Text(s.to_string())
}

fn pair(k: &str, v: &str) -> (String, String) {
    (k.to_string(), v.to_string())
}

#[test]
fn parse_splits_on_semicolons_and_first_colon() {
    assert_eq!(
        parse_pairs("a: b; c: d;"),
        vec![pair("a", "b"), pair("c", "d")]
    );
}

#[test]
fn parse_trims_whitespace_on_both_sides() {
    assert_eq!(
        parse_pairs("  key :  some value ; other:x"),
        vec![pair("key", "some value"), pair("other", "x")]
    );
}

#[test]
fn parse_keeps_later_colons_in_the_value() {
    assert_eq!(parse_pairs("url: http://x;"), vec![pair("url", "http://x")]);
}

#[test]
fn parse_drops_segments_without_a_colon() {
    assert_eq!(parse_pairs("novalue; a: b;"), vec![pair("a", "b")]);
    assert_eq!(parse_pairs(""), vec![]);
}

fn point_light_variant() -> Value {
    let no_cast = VariantValue {
        label: "NoCast".to_string(),
        parts: vec!["castShadow: false;".to_string()],
        args: vec![],
    };
    Value::Variant(VariantValue {
        label: "Point".to_string(),
        parts: vec![
            "type: point; decay: ".to_string(),
            "; distance: ".to_string(),
            "; ".to_string(),
            "".to_string(),
        ],
        args: vec![Value::Number(num(1)), Value::Number(num(50)), Value::Variant(no_cast)],
    })
}

fn directional_light_variant() -> Value {
    let no_cast = VariantValue {
        label: "NoCast".to_string(),
        parts: vec!["castShadow: false;".to_string()],
        args: vec![],
    };
    Value::Variant(VariantValue {
        label: "Directional".to_string(),
        parts: vec!["type: directional; ".to_string(), "".to_string()],
        args: vec![Value::Variant(no_cast)],
    })
}

fn light_component() -> Component {
    Component {
        kind: "light".to_string(),
        parts: None,
        fields: vec![
            Field {
                key: "".to_string(),
                value: point_light_variant(),
                default: directional_light_variant(),
            },
            Field {
                key: "color".to_string(),
                value: text("#EEE"),
                default: text("#FFF"),
            },
            Field {
                key: "intensity".to_string(),
                value: Value::Number(num(2)),
                default: Value::Number(num(1)),
            },
        ],
    }
}

#[test]
fn as_map_flattens_unnamed_fields_into_leaf_pairs() {
    let light = light_component();
    assert_eq!(
        light.as_map(),
        vec![
            pair("type", "point"),
            pair("decay", "1"),
            pair("distance", "50"),
            pair("castShadow", "false"),
            pair("color", "#EEE"),
            pair("intensity", "2"),
        ]
    );
}

#[test]
fn as_map_agrees_with_parsing_the_delta_string() {
    // The round trip between the two serialization targets, on values.
    let light = light_component();
    let from_string = parse_pairs(&light.encode());
    assert_eq!(light.as_map(), from_string);
}

#[test]
fn as_map_keeps_default_valued_fields_the_string_omits() {
    let c = Component {
        kind: "sound".to_string(),
        parts: None,
        fields: vec![Field {
            key: "volume".to_string(),
            value: Value::Number(num(1)),
            default: Value::Number(num(1)),
        }],
    };
    assert_eq!(c.encode(), "");
    assert_eq!(c.as_map(), vec![pair("volume", "1")]);
}

#[test]
fn as_map_later_fields_overwrite_earlier_keys() {
    let c = Component {
        kind: "custom".to_string(),
        parts: None,
        fields: vec![
            Field { key: "a".to_string(), value: text("first"), default: text("") },
            Field { key: "b".to_string(), value: text("kept"), default: text("") },
            Field { key: "a".to_string(), value: text("second"), default: text("") },
        ],
    };
    // Last write wins; the key keeps its first position.  Single-character
    // keys still map under their own name.
    assert_eq!(c.as_map(), vec![pair("a", "second"), pair("b", "kept")]);
}

#[test]
fn raw_property_bags_flatten_into_the_map() {
    let c = Component {
        kind: "material".to_string(),
        parts: None,
        fields: vec![
            Field {
                key: "shader".to_string(),
                value: text("flat"),
                default: text("standard"),
            },
            Field {
                key: "".to_string(),
                value: Value::Pairs(vec![
                    ("color".to_string(), "red".to_string()),
                    ("side".to_string(), "double".to_string()),
                ]),
                default: Value::Pairs(vec![]),
            },
        ],
    };
    assert_eq!(c.encode(), "shader: flat; color: red; side: double; ;");
    assert_eq!(
        c.as_map(),
        vec![
            pair("shader", "flat"),
            pair("color", "red"),
            pair("side", "double"),
        ]
    );
    assert_eq!(c.as_map(), parse_pairs(&c.encode()));
}

#[test]
fn clone_is_equal_and_independent() {
    let original = light_component();
    let mut copy = original.clone();
    assert!(original.equals(&copy));
    assert!(copy.equals(&original));
    assert!(original == copy);
    copy.fields[1].value = text("#000");
    assert!(!original.equals(&copy));
    assert_eq!(original.fields[1].value.encode(), "#EEE");
}

#[test]
fn equals_is_false_across_concrete_types_in_both_orders() {
    let light = light_component();
    let other = Component {
        kind: "sound".to_string(),
        parts: None,
        fields: vec![],
    };
    assert!(!light.equals(&other));
    assert!(!other.equals(&light));
    let same_shape = Component {
        kind: "lamp".to_string(),
        parts: None,
        fields: light_component().fields,
    };
    assert!(!light.equals(&same_shape));
    assert!(!same_shape.equals(&light));
}

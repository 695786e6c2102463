//! The component model: typed property bags and their attribute-string
//! encoding.
//!
//! A [`Component`] is a named record of fields.  Each field has a stable wire
//! name (possibly empty, meaning "flatten without a key prefix"), a current
//! [`Value`] and a default `Value`.  A component encodes into a single
//! attribute string in one of two modes:
//!
//! * *template mode*: a fixed format string with one placeholder per field,
//!   filled with each field's encoded value in declared order;
//! * *delta mode* (the default): fields equal to their default are omitted;
//!   every other field emits `key: value; ` (or the bare `value;` when the
//!   wire name has at most one character).
//!
//! Variant (tagged-union) fields carry their own template and argument list
//! and splice their rendered text into the parent's output at the field's
//! position.

use vstd::prelude::*;

use crate::num::{spec_encode_number, spec_idec, i64_to_dec, Number};
use crate::utils::{
    spec_encode_vec2, spec_encode_vec3, spec_encode_vec4, Vector2, Vector3, Vector4,
};

verus! {

/// A property value: a member of the closed set of encodable value shapes.
#[derive(Debug)]
pub enum Value {
    /// A decimal number.
    Number(Number),
    /// A whole number.
    Integer(i64),
    /// A boolean, encoded as `true` or `false`.
    Boolean(bool),
    /// Free text, encoded as itself.
    Text(String),
    /// An enumeration label, encoded as its declared token.
    Label(String),
    /// A 2-vector, encoded space-separated.
    Vec2(Vector2),
    /// A 3-vector, encoded space-separated.
    Vec3(Vector3),
    /// A 4-vector, encoded space-separated.
    Vec4(Vector4),
    /// A list of values, encoded comma-separated with no trailing separator.
    List(Vec<Value>),
    /// A raw property bag, encoded as `key: value; ` per entry.
    Pairs(Vec<(String, String)>),
    /// The active alternative of a tagged union, with its own template.
    Variant(VariantValue),
    /// A nested component, encoded by the component rules.
    Component(Component),
}

/// The active alternative of a variant field: a label naming the alternative,
/// a template of `parts.len() == args.len() + 1` literal pieces, and the
/// argument values substituted between the pieces in declared order.
#[derive(Debug)]
pub struct VariantValue {
    pub label: String,
    pub parts: Vec<String>,
    pub args: Vec<Value>,
}

/// One field of a component: wire name, current value, and declared default.
#[derive(Debug)]
pub struct Field {
    pub key: String,
    pub value: Value,
    pub default: Value,
}

/// A structured, named-field value attached to an entity.  `kind`
/// identifies the concrete component type for type-checked equality;
/// `parts`, when present, is the template of `fields.len() + 1` literal
/// pieces selecting template mode.
#[derive(Debug)]
pub struct Component {
    pub kind: String,
    pub parts: Option<Vec<String>>,
    pub fields: Vec<Field>,
}

// ---------------------------------------------------------------------------
// Well-formedness
// ---------------------------------------------------------------------------
pub open spec fn value_wf(v: Value) -> bool
    decreases v,
{
    match v {
        Value::Number(n) => n.wf(),
        Value::Integer(_) => true,
        Value::Boolean(_) => true,
        Value::Text(_) => true,
        Value::Label(_) => true,
        Value::Vec2(x) => x.wf(),
        Value::Vec3(x) => x.wf(),
        Value::Vec4(x) => x.wf(),
        Value::List(items) => values_wf(items@),
        Value::Pairs(_) => true,
        Value::Variant(vv) => vv.parts@.len() == vv.args@.len() + 1 && values_wf(vv.args@),
        Value::Component(c) => component_wf(c),
    }
}

pub open spec fn values_wf(s: Seq<Value>) -> bool
    decreases s,
{
    if s.len() == 0 {
        true
    } else {
        value_wf(s[0]) && values_wf(s.drop_first())
    }
}

pub open spec fn fields_wf(s: Seq<Field>) -> bool
    decreases s,
{
    if s.len() == 0 {
        true
    } else {
        value_wf(s[0].value) && value_wf(s[0].default) && fields_wf(s.drop_first())
    }
}

pub open spec fn component_wf(c: Component) -> bool
    decreases c,
{
    &&& fields_wf(c.fields@)
    &&& match c.parts {
        Some(parts) => parts@.len() == c.fields@.len() + 1,
        None => true,
    }
}

// ---------------------------------------------------------------------------
// Structural equality
// ---------------------------------------------------------------------------
/// Equality of raw property bags, entry-wise on the text.
pub open spec fn pairs_eq(a: Seq<(String, String)>, b: Seq<(String, String)>) -> bool {
    a.len() == b.len() && forall|i: int|
        0 <= i < a.len() ==> a[i].0@ == b[i].0@ && a[i].1@ == b[i].1@
}

/// Equality of template part lists, piece-wise on the text.
pub open spec fn parts_eq(a: Seq<String>, b: Seq<String>) -> bool {
    a.len() == b.len() && forall|i: int| 0 <= i < a.len() ==> a[i]@ == b[i]@
}

/// Structural equality of values.
pub open spec fn value_eq(a: Value, b: Value) -> bool
    decreases a,
{
    match (a, b) {
        (Value::Number(x), Value::Number(y)) => x == y,
        (Value::Integer(x), Value::Integer(y)) => x == y,
        (Value::Boolean(x), Value::Boolean(y)) => x == y,
        (Value::Text(x), Value::Text(y)) => x@ == y@,
        (Value::Label(x), Value::Label(y)) => x@ == y@,
        (Value::Vec2(x), Value::Vec2(y)) => x == y,
        (Value::Vec3(x), Value::Vec3(y)) => x == y,
        (Value::Vec4(x), Value::Vec4(y)) => x == y,
        (Value::List(x), Value::List(y)) => values_eq(x@, y@),
        (Value::Pairs(x), Value::Pairs(y)) => pairs_eq(x@, y@),
        (Value::Variant(x), Value::Variant(y)) => x.label@ == y.label@ && parts_eq(
            x.parts@,
            y.parts@,
        ) && values_eq(x.args@, y.args@),
        (Value::Component(x), Value::Component(y)) => component_eq(x, y),
        _ => false,
    }
}

pub open spec fn values_eq(a: Seq<Value>, b: Seq<Value>) -> bool
    decreases a,
{
    if a.len() != b.len() {
        false
    } else if a.len() == 0 {
        true
    } else {
        value_eq(a[0], b[0]) && values_eq(a.drop_first(), b.drop_first())
    }
}

pub open spec fn fields_eq(a: Seq<Field>, b: Seq<Field>) -> bool
    decreases a,
{
    if a.len() != b.len() {
        false
    } else if a.len() == 0 {
        true
    } else {
        a[0].key@ == b[0].key@ && value_eq(a[0].value, b[0].value) && value_eq(
            a[0].default,
            b[0].default,
        ) && fields_eq(a.drop_first(), b.drop_first())
    }
}

/// Structural equality of components.  Components of different concrete types
/// (different `kind`) are never equal.
pub open spec fn component_eq(a: Component, b: Component) -> bool
    decreases a,
{
    &&& a.kind@ == b.kind@
    &&& match (a.parts, b.parts) {
        (Some(x), Some(y)) => parts_eq(x@, y@),
        (None, None) => true,
        _ => false,
    }
    &&& fields_eq(a.fields@, b.fields@)
}

// ---------------------------------------------------------------------------
// Encoding
// ---------------------------------------------------------------------------
/// The canonical text of one value.
pub open spec fn spec_encode_value(v: Value) -> Seq<char>
    decreases v,
{
    match v {
        Value::Number(n) => spec_encode_number(n),
        Value::Integer(i) => spec_idec(i as int),
        Value::Boolean(b) => if b {
            "true"@
        } else {
            "false"@
        },
        Value::Text(s) => s@,
        Value::Label(s) => s@,
        Value::Vec2(x) => spec_encode_vec2(x),
        Value::Vec3(x) => spec_encode_vec3(x),
        Value::Vec4(x) => spec_encode_vec4(x),
        Value::List(items) => spec_encode_list(items@),
        Value::Pairs(ps) => spec_encode_pairs(ps@),
        Value::Variant(vv) => spec_encode_template_args(vv.parts@, vv.args@),
        Value::Component(c) => spec_encode_component(c),
    }
}

/// Comma-joined item texts; an empty list encodes as the empty string.
pub open spec fn spec_encode_list(items: Seq<Value>) -> Seq<char>
    decreases items,
{
    if items.len() == 0 {
        Seq::empty()
    } else if items.len() == 1 {
        spec_encode_value(items[0])
    } else {
        spec_encode_value(items[0]) + seq![','] + spec_encode_list(items.drop_first())
    }
}

/// An empty list encodes as the empty string, not an error.
pub proof fn lemma_encode_list_empty()
    ensures
        spec_encode_list(Seq::<Value>::empty()) == Seq::<char>::empty(),
{
}

/// `key: value; ` for each entry of a raw property bag.
pub open spec fn spec_encode_pairs(ps: Seq<(String, String)>) -> Seq<char>
    decreases ps,
{
    if ps.len() == 0 {
        Seq::empty()
    } else {
        ps[0].0@ + ": "@ + ps[0].1@ + "; "@ + spec_encode_pairs(ps.drop_first())
    }
}

/// Template substitution for a variant: literal pieces interleaved with the
/// encoded arguments, in order.
pub open spec fn spec_encode_template_args(parts: Seq<String>, args: Seq<Value>) -> Seq<char>
    decreases args,
{
    if args.len() == 0 {
        if parts.len() == 0 {
            Seq::empty()
        } else {
            parts[0]@
        }
    } else if parts.len() == 0 {
        Seq::empty()
    } else {
        parts[0]@ + spec_encode_value(args[0]) + spec_encode_template_args(
            parts.drop_first(),
            args.drop_first(),
        )
    }
}

/// Template substitution for a component: literal pieces interleaved with the
/// encoded field values, in declared field order.
pub open spec fn spec_encode_template_fields(parts: Seq<String>, fields: Seq<Field>) -> Seq<char>
    decreases fields,
{
    if fields.len() == 0 {
        if parts.len() == 0 {
            Seq::empty()
        } else {
            parts[0]@
        }
    } else if parts.len() == 0 {
        Seq::empty()
    } else {
        parts[0]@ + spec_encode_value(fields[0].value) + spec_encode_template_fields(
            parts.drop_first(),
            fields.drop_first(),
        )
    }
}

/// The delta-mode segment of one field: nothing when the value equals the
/// default; otherwise `key: value; ` for a multi-character wire name and the
/// bare `value;` for a wire name of at most one character.
pub open spec fn spec_delta_segment(f: Field) -> Seq<char>
    decreases f,
{
    if value_eq(f.value, f.default) {
        Seq::empty()
    } else if f.key@.len() <= 1 {
        spec_encode_value(f.value) + ";"@
    } else {
        f.key@ + ": "@ + spec_encode_value(f.value) + "; "@
    }
}

/// Delta-mode text: the concatenation of the fields' segments in order.
pub open spec fn spec_encode_fields_delta(fields: Seq<Field>) -> Seq<char>
    decreases fields,
{
    if fields.len() == 0 {
        Seq::empty()
    } else {
        spec_delta_segment(fields[0]) + spec_encode_fields_delta(fields.drop_first())
    }
}

/// The attribute string of a component: template substitution when a template
/// is declared, delta mode otherwise.
pub open spec fn spec_encode_component(c: Component) -> Seq<char>
    decreases c,
{
    match c.parts {
        Some(parts) => spec_encode_template_fields(parts@, c.fields@),
        None => spec_encode_fields_delta(c.fields@),
    }
}

/// A field whose value equals its declared default never appears in
/// delta-mode output: when every field is at its default the output is
/// empty.
pub proof fn lemma_delta_all_default(fields: Seq<Field>)
    requires
        forall|i: int| 0 <= i < fields.len() ==> value_eq(fields[i].value, fields[i].default),
    ensures
        spec_encode_fields_delta(fields) == Seq::<char>::empty(),
    decreases fields,
{
    if fields.len() > 0 {
        assert(value_eq(fields[0].value, fields[0].default));
        assert forall|i: int|
            0 <= i < fields.drop_first().len() implies value_eq(
            fields.drop_first()[i].value,
            fields.drop_first()[i].default,
        ) by {
            assert(fields.drop_first()[i] == fields[i + 1]);
        }
        lemma_delta_all_default(fields.drop_first());
        assert(spec_delta_segment(fields[0]) == Seq::<char>::empty());
        assert(spec_encode_fields_delta(fields) == spec_delta_segment(fields[0])
            + spec_encode_fields_delta(fields.drop_first()));
        assert(Seq::<char>::empty() + Seq::<char>::empty() =~= Seq::<char>::empty());
    }
}

/// Changing exactly one field away from its default makes exactly that
/// field's segment appear, with its wire key and encoded value, and nothing
/// else.
pub proof fn lemma_delta_single_change(fields: Seq<Field>, i: int)
    requires
        0 <= i < fields.len(),
        !value_eq(fields[i].value, fields[i].default),
        forall|j: int|
            0 <= j < fields.len() && j != i ==> value_eq(fields[j].value, fields[j].default),
    ensures
        spec_encode_fields_delta(fields) == spec_delta_segment(fields[i]),
    decreases fields,
{
    if i == 0 {
        assert forall|j: int|
            0 <= j < fields.drop_first().len() implies value_eq(
            fields.drop_first()[j].value,
            fields.drop_first()[j].default,
        ) by {
            assert(fields.drop_first()[j] == fields[j + 1]);
        }
        lemma_delta_all_default(fields.drop_first());
        assert(spec_encode_fields_delta(fields) == spec_delta_segment(fields[0])
            + spec_encode_fields_delta(fields.drop_first()));
        assert(spec_delta_segment(fields[0]) + Seq::<char>::empty() =~= spec_delta_segment(
            fields[0],
        ));
    } else {
        assert(value_eq(fields[0].value, fields[0].default));
        assert(fields.drop_first()[i - 1] == fields[i]);
        assert forall|j: int|
            0 <= j < fields.drop_first().len() && j != i - 1 implies value_eq(
            fields.drop_first()[j].value,
            fields.drop_first()[j].default,
        ) by {
            assert(fields.drop_first()[j] == fields[j + 1]);
        }
        lemma_delta_single_change(fields.drop_first(), i - 1);
        assert(spec_delta_segment(fields[0]) == Seq::<char>::empty());
        assert(spec_encode_fields_delta(fields) == spec_delta_segment(fields[0])
            + spec_encode_fields_delta(fields.drop_first()));
        assert(Seq::<char>::empty() + spec_delta_segment(fields[i]) =~= spec_delta_segment(
            fields[i],
        ));
    }
}

// ---------------------------------------------------------------------------
// Sequence bridges
// ---------------------------------------------------------------------------
proof fn lemma_suffix_drop_first<T>(s: Seq<T>, i: int)
    requires
        0 <= i < s.len(),
    ensures
        s.subrange(i, s.len() as int).drop_first() == s.subrange(i + 1, s.len() as int),
{
    assert(s.subrange(i, s.len() as int).drop_first() =~= s.subrange(i + 1, s.len() as int));
}

proof fn lemma_subrange_full<T>(s: Seq<T>)
    ensures
        s.subrange(0, s.len() as int) == s,
{
    assert(s.subrange(0, s.len() as int) =~= s);
}

/// Element-wise equality and sequence equality coincide for value sequences.
pub proof fn lemma_values_eq_pointwise(a: Seq<Value>, b: Seq<Value>)
    ensures
        values_eq(a, b) <==> (a.len() == b.len() && forall|i: int|
            0 <= i < a.len() ==> value_eq(a[i], b[i])),
    decreases a,
{
    if a.len() == b.len() && a.len() > 0 {
        lemma_values_eq_pointwise(a.drop_first(), b.drop_first());
        assert forall|i: int| 0 <= i < a.drop_first().len() implies (a.drop_first()[i]
            == a[i + 1] && b.drop_first()[i] == b[i + 1]) by {}
        if values_eq(a, b) {
            assert forall|i: int| 0 <= i < a.len() implies value_eq(a[i], b[i]) by {
                if i > 0 {
                    assert(value_eq(a.drop_first()[i - 1], b.drop_first()[i - 1]));
                }
            }
        }
        if a.len() == b.len() && forall|i: int| 0 <= i < a.len() ==> value_eq(a[i], b[i]) {
            assert forall|i: int|
                0 <= i < a.drop_first().len() implies value_eq(
                a.drop_first()[i],
                b.drop_first()[i],
            ) by {
                assert(value_eq(a[i + 1], b[i + 1]));
            }
        }
    }
}

/// Element-wise equality and sequence equality coincide for field sequences.
pub proof fn lemma_fields_eq_pointwise(a: Seq<Field>, b: Seq<Field>)
    ensures
        fields_eq(a, b) <==> (a.len() == b.len() && forall|i: int|
            0 <= i < a.len() ==> (a[i].key@ == b[i].key@ && value_eq(a[i].value, b[i].value)
                && value_eq(a[i].default, b[i].default))),
    decreases a,
{
    if a.len() == b.len() && a.len() > 0 {
        lemma_fields_eq_pointwise(a.drop_first(), b.drop_first());
        if fields_eq(a, b) {
            assert forall|i: int|
                0 <= i < a.len() implies (a[i].key@ == b[i].key@ && value_eq(
                a[i].value,
                b[i].value,
            ) && value_eq(a[i].default, b[i].default)) by {
                if i > 0 {
                    assert(a.drop_first()[i - 1] == a[i] && b.drop_first()[i - 1] == b[i]);
                }
            }
        }
        if a.len() == b.len() && forall|i: int|
            0 <= i < a.len() ==> (a[i].key@ == b[i].key@ && value_eq(a[i].value, b[i].value)
                && value_eq(a[i].default, b[i].default)) {
            assert forall|i: int|
                0 <= i < a.drop_first().len() implies (a.drop_first()[i].key@
                == b.drop_first()[i].key@ && value_eq(
                a.drop_first()[i].value,
                b.drop_first()[i].value,
            ) && value_eq(a.drop_first()[i].default, b.drop_first()[i].default)) by {
                assert(a.drop_first()[i] == a[i + 1] && b.drop_first()[i] == b[i + 1]);
            }
        }
    }
}

// ---------------------------------------------------------------------------
// Laws of structural equality
// ---------------------------------------------------------------------------
/// Structural equality of values is reflexive.
pub proof fn lemma_value_eq_refl(a: Value)
    ensures
        value_eq(a, a),
    decreases a,
{
    match a {
        Value::List(x) => {
            lemma_values_eq_refl(x@);
        },
        Value::Variant(vv) => {
            lemma_values_eq_refl(vv.args@);
        },
        Value::Component(c) => {
            lemma_component_eq_refl(c);
        },
        _ => {},
    }
}

/// Structural equality of value sequences is reflexive.
pub proof fn lemma_values_eq_refl(s: Seq<Value>)
    ensures
        values_eq(s, s),
    decreases s,
{
    if s.len() > 0 {
        lemma_value_eq_refl(s[0]);
        lemma_values_eq_refl(s.drop_first());
    }
}

/// Structural equality of field sequences is reflexive.
pub proof fn lemma_fields_eq_refl(s: Seq<Field>)
    ensures
        fields_eq(s, s),
    decreases s,
{
    if s.len() > 0 {
        lemma_value_eq_refl(s[0].value);
        lemma_value_eq_refl(s[0].default);
        lemma_fields_eq_refl(s.drop_first());
    }
}

/// Structural equality of components is reflexive.
pub proof fn lemma_component_eq_refl(c: Component)
    ensures
        component_eq(c, c),
    decreases c,
{
    lemma_fields_eq_refl(c.fields@);
}

/// Structural equality of values is symmetric.
pub proof fn lemma_value_eq_sym(a: Value, b: Value)
    ensures
        value_eq(a, b) == value_eq(b, a),
    decreases a,
{
    match (a, b) {
        (Value::List(x), Value::List(y)) => {
            lemma_values_eq_sym(x@, y@);
        },
        (Value::Variant(x), Value::Variant(y)) => {
            lemma_values_eq_sym(x.args@, y.args@);
        },
        (Value::Component(x), Value::Component(y)) => {
            lemma_component_eq_sym(x, y);
        },
        _ => {},
    }
}

/// Structural equality of value sequences is symmetric.
pub proof fn lemma_values_eq_sym(a: Seq<Value>, b: Seq<Value>)
    ensures
        values_eq(a, b) == values_eq(b, a),
    decreases a,
{
    if a.len() == b.len() && a.len() > 0 {
        lemma_value_eq_sym(a[0], b[0]);
        lemma_values_eq_sym(a.drop_first(), b.drop_first());
    }
}

/// Structural equality of field sequences is symmetric.
pub proof fn lemma_fields_eq_sym(a: Seq<Field>, b: Seq<Field>)
    ensures
        fields_eq(a, b) == fields_eq(b, a),
    decreases a,
{
    if a.len() == b.len() && a.len() > 0 {
        lemma_value_eq_sym(a[0].value, b[0].value);
        lemma_value_eq_sym(a[0].default, b[0].default);
        lemma_fields_eq_sym(a.drop_first(), b.drop_first());
    }
}

/// Structural equality of components is symmetric.
pub proof fn lemma_component_eq_sym(a: Component, b: Component)
    ensures
        component_eq(a, b) == component_eq(b, a),
    decreases a,
{
    lemma_fields_eq_sym(a.fields@, b.fields@);
}

/// Structural equality of values is transitive.
pub proof fn lemma_value_eq_trans(a: Value, b: Value, c: Value)
    requires
        value_eq(a, b),
        value_eq(b, c),
    ensures
        value_eq(a, c),
    decreases a,
{
    match (a, b, c) {
        (Value::List(x), Value::List(y), Value::List(z)) => {
            lemma_values_eq_trans(x@, y@, z@);
        },
        (Value::Variant(x), Value::Variant(y), Value::Variant(z)) => {
            lemma_values_eq_trans(x.args@, y.args@, z.args@);
        },
        (Value::Component(x), Value::Component(y), Value::Component(z)) => {
            lemma_component_eq_trans(x, y, z);
        },
        _ => {},
    }
}

/// Structural equality of value sequences is transitive.
pub proof fn lemma_values_eq_trans(a: Seq<Value>, b: Seq<Value>, c: Seq<Value>)
    requires
        values_eq(a, b),
        values_eq(b, c),
    ensures
        values_eq(a, c),
    decreases a,
{
    if a.len() > 0 {
        lemma_value_eq_trans(a[0], b[0], c[0]);
        lemma_values_eq_trans(a.drop_first(), b.drop_first(), c.drop_first());
    }
}

/// Structural equality of field sequences is transitive.
pub proof fn lemma_fields_eq_trans(a: Seq<Field>, b: Seq<Field>, c: Seq<Field>)
    requires
        fields_eq(a, b),
        fields_eq(b, c),
    ensures
        fields_eq(a, c),
    decreases a,
{
    if a.len() > 0 {
        lemma_value_eq_trans(a[0].value, b[0].value, c[0].value);
        lemma_value_eq_trans(a[0].default, b[0].default, c[0].default);
        lemma_fields_eq_trans(a.drop_first(), b.drop_first(), c.drop_first());
    }
}

/// Structural equality of components is transitive.
pub proof fn lemma_component_eq_trans(a: Component, b: Component, c: Component)
    requires
        component_eq(a, b),
        component_eq(b, c),
    ensures
        component_eq(a, c),
    decreases a,
{
    lemma_fields_eq_trans(a.fields@, b.fields@, c.fields@);
}

/// Components whose concrete types differ are never equal, in either order.
pub proof fn lemma_component_neq_kinds(a: Component, b: Component)
    requires
        a.kind@ != b.kind@,
    ensures
        !component_eq(a, b),
        !component_eq(b, a),
{
}

// ---------------------------------------------------------------------------
// Executable equality
// ---------------------------------------------------------------------------
fn eq_pairs(a: &Vec<(String, String)>, b: &Vec<(String, String)>) -> (r: bool)
    ensures
        r == pairs_eq(a@, b@),
{
    if a.len() != b.len() {
        return false;
    }
    let n = a.len();
    let mut i: usize = 0;
    while i < n
        invariant
            n == a@.len() == b@.len(),
            i <= n,
            forall|j: int| 0 <= j < i ==> a@[j].0@ == b@[j].0@ && a@[j].1@ == b@[j].1@,
        decreases n - i,
    {
        if a[i].0 != b[i].0 || a[i].1 != b[i].1 {
            return false;
        }
        i = i + 1;
    }
    true
}

fn eq_parts(a: &Vec<String>, b: &Vec<String>) -> (r: bool)
    ensures
        r == parts_eq(a@, b@),
{
    if a.len() != b.len() {
        return false;
    }
    let n = a.len();
    let mut i: usize = 0;
    while i < n
        invariant
            n == a@.len() == b@.len(),
            i <= n,
            forall|j: int| 0 <= j < i ==> a@[j]@ == b@[j]@,
        decreases n - i,
    {
        if a[i] != b[i] {
            return false;
        }
        i = i + 1;
    }
    true
}

fn eq_values(a: &Vec<Value>, b: &Vec<Value>) -> (r: bool)
    ensures
        r == values_eq(a@, b@),
    decreases a@,
{
    if a.len() != b.len() {
        return false;
    }
    let n = a.len();
    let mut i: usize = 0;
    while i < n
        invariant
            n == a@.len() == b@.len(),
            i <= n,
            forall|j: int| 0 <= j < i ==> value_eq(a@[j], b@[j]),
        decreases n - i,
    {
        if !eq_value(&a[i], &b[i]) {
            proof {
                lemma_values_eq_pointwise(a@, b@);
            }
            return false;
        }
        i = i + 1;
    }
    proof {
        lemma_values_eq_pointwise(a@, b@);
    }
    true
}

fn eq_fields(a: &Vec<Field>, b: &Vec<Field>) -> (r: bool)
    ensures
        r == fields_eq(a@, b@),
    decreases a@,
{
    if a.len() != b.len() {
        return false;
    }
    let n = a.len();
    let mut i: usize = 0;
    while i < n
        invariant
            n == a@.len() == b@.len(),
            i <= n,
            forall|j: int|
                0 <= j < i ==> (a@[j].key@ == b@[j].key@ && value_eq(a@[j].value, b@[j].value)
                    && value_eq(a@[j].default, b@[j].default)),
        decreases n - i,
    {
        if a[i].key != b[i].key || !eq_value(&a[i].value, &b[i].value) || !eq_value(
            &a[i].default,
            &b[i].default,
        ) {
            proof {
                lemma_fields_eq_pointwise(a@, b@);
            }
            return false;
        }
        i = i + 1;
    }
    proof {
        lemma_fields_eq_pointwise(a@, b@);
    }
    true
}

#[verifier::rlimit(60)]
fn eq_value(a: &Value, b: &Value) -> (r: bool)
    ensures
        r == value_eq(*a, *b),
    decreases *a,
{
    match a {
        Value::Number(x) => match b {
            Value::Number(y) => *x == *y,
            _ => false,
        },
        Value::Integer(x) => match b {
            Value::Integer(y) => *x == *y,
            _ => false,
        },
        Value::Boolean(x) => match b {
            Value::Boolean(y) => *x == *y,
            _ => false,
        },
        Value::Text(x) => match b {
            Value::Text(y) => *x == *y,
            _ => false,
        },
        Value::Label(x) => match b {
            Value::Label(y) => *x == *y,
            _ => false,
        },
        Value::Vec2(x) => match b {
            Value::Vec2(y) => *x == *y,
            _ => false,
        },
        Value::Vec3(x) => match b {
            Value::Vec3(y) => *x == *y,
            _ => false,
        },
        Value::Vec4(x) => match b {
            Value::Vec4(y) => *x == *y,
            _ => false,
        },
        Value::List(x) => match b {
            Value::List(y) => eq_values(x, y),
            _ => false,
        },
        Value::Pairs(x) => match b {
            Value::Pairs(y) => eq_pairs(x, y),
            _ => false,
        },
        Value::Variant(x) => match b {
            Value::Variant(y) => x.label == y.label && eq_parts(
                &x.parts,
                &y.parts,
            ) && eq_values(&x.args, &y.args),
            _ => false,
        },
        Value::Component(x) => match b {
            Value::Component(y) => eq_component(x, y),
            _ => false,
        },
    }
}

fn eq_component(a: &Component, b: &Component) -> (r: bool)
    ensures
        r == component_eq(*a, *b),
    decreases *a,
{
    if a.kind != b.kind {
        return false;
    }
    let parts_ok = match (&a.parts, &b.parts) {
        (Some(x), Some(y)) => eq_parts(x, y),
        (None, None) => true,
        _ => false,
    };
    parts_ok && eq_fields(&a.fields, &b.fields)
}

impl PartialEq for Value {
    /// Structural comparison; values of different shapes compare unequal.
    fn eq(&self, other: &Value) -> (r: bool) {
        eq_value(self, other)
    }
}

impl vstd::std_specs::cmp::PartialEqSpecImpl for Value {
    open spec fn obeys_eq_spec() -> bool {
        true
    }

    open spec fn eq_spec(&self, other: &Value) -> bool {
        value_eq(*self, *other)
    }
}

impl PartialEq for Component {
    /// Type-checked then structural comparison: components of different
    /// concrete types compare unequal without any field being read.
    fn eq(&self, other: &Component) -> (r: bool) {
        eq_component(self, other)
    }
}

impl vstd::std_specs::cmp::PartialEqSpecImpl for Component {
    open spec fn obeys_eq_spec() -> bool {
        true
    }

    open spec fn eq_spec(&self, other: &Component) -> bool {
        component_eq(*self, *other)
    }
}

impl Component {
    /// Type-checked structural equality: false whenever the concrete types
    /// (the `kind` tags) differ, full structural comparison otherwise.
    pub fn equals(&self, other: &Component) -> (r: bool)
        ensures
            r == component_eq(*self, *other),
            self.kind@ != other.kind@ ==> !r,
    {
        eq_component(self, other)
    }
}

// ---------------------------------------------------------------------------
// Cloning
// ---------------------------------------------------------------------------
fn clone_parts(parts: &Vec<String>) -> (r: Vec<String>)
    ensures
        parts_eq(parts@, r@),
{
    let n = parts.len();
    let mut r: Vec<String> = Vec::new();
    let mut i: usize = 0;
    while i < n
        invariant
            n == parts@.len(),
            i <= n,
            r@.len() == i,
            forall|j: int| 0 <= j < i ==> parts@[j]@ == r@[j]@,
        decreases n - i,
    {
        r.push(parts[i].clone());
        i = i + 1;
    }
    r
}

fn clone_pairs(ps: &Vec<(String, String)>) -> (r: Vec<(String, String)>)
    ensures
        pairs_eq(ps@, r@),
{
    let n = ps.len();
    let mut r: Vec<(String, String)> = Vec::new();
    let mut i: usize = 0;
    while i < n
        invariant
            n == ps@.len(),
            i <= n,
            r@.len() == i,
            forall|j: int| 0 <= j < i ==> ps@[j].0@ == r@[j].0@ && ps@[j].1@ == r@[j].1@,
        decreases n - i,
    {
        r.push((ps[i].0.clone(), ps[i].1.clone()));
        i = i + 1;
    }
    r
}

fn clone_values(items: &Vec<Value>) -> (r: Vec<Value>)
    ensures
        values_eq(items@, r@),
    decreases items@,
{
    let n = items.len();
    let mut r: Vec<Value> = Vec::new();
    let mut i: usize = 0;
    while i < n
        invariant
            n == items@.len(),
            i <= n,
            r@.len() == i,
            forall|j: int| 0 <= j < i ==> value_eq(items@[j], r@[j]),
        decreases n - i,
    {
        r.push(clone_value(&items[i]));
        i = i + 1;
    }
    proof {
        lemma_values_eq_pointwise(items@, r@);
    }
    r
}

fn clone_fields(fields: &Vec<Field>) -> (r: Vec<Field>)
    ensures
        fields_eq(fields@, r@),
    decreases fields@,
{
    let n = fields.len();
    let mut r: Vec<Field> = Vec::new();
    let mut i: usize = 0;
    while i < n
        invariant
            n == fields@.len(),
            i <= n,
            r@.len() == i,
            forall|j: int|
                0 <= j < i ==> (fields@[j].key@ == r@[j].key@ && value_eq(
                    fields@[j].value,
                    r@[j].value,
                ) && value_eq(fields@[j].default, r@[j].default)),
        decreases n - i,
    {
        let f = Field {
            key: fields[i].key.clone(),
            value: clone_value(&fields[i].value),
            default: clone_value(&fields[i].default),
        };
        r.push(f);
        i = i + 1;
    }
    proof {
        lemma_fields_eq_pointwise(fields@, r@);
    }
    r
}

fn clone_value(v: &Value) -> (r: Value)
    ensures
        value_eq(*v, r),
    decreases *v,
{
    match v {
        Value::Number(x) => Value::Number(*x),
        Value::Integer(x) => Value::Integer(*x),
        Value::Boolean(x) => Value::Boolean(*x),
        Value::Text(x) => Value::Text(x.clone()),
        Value::Label(x) => Value::Label(x.clone()),
        Value::Vec2(x) => Value::Vec2(*x),
        Value::Vec3(x) => Value::Vec3(*x),
        Value::Vec4(x) => Value::Vec4(*x),
        Value::List(items) => Value::List(clone_values(items)),
        Value::Pairs(ps) => Value::Pairs(clone_pairs(ps)),
        Value::Variant(vv) => Value::Variant(
            VariantValue {
                label: vv.label.clone(),
                parts: clone_parts(&vv.parts),
                args: clone_values(&vv.args),
            },
        ),
        Value::Component(c) => Value::Component(clone_component(c)),
    }
}

fn clone_component(c: &Component) -> (r: Component)
    ensures
        component_eq(*c, r),
    decreases *c,
{
    let parts = match &c.parts {
        Some(p) => Some(clone_parts(p)),
        None => None,
    };
    Component { kind: c.kind.clone(), parts, fields: clone_fields(&c.fields) }
}

impl Clone for Value {
    /// Deep copy; the clone is structurally equal to the original and shares
    /// no storage with it.
    fn clone(&self) -> (r: Value)
        ensures
            value_eq(*self, r),
    {
        clone_value(self)
    }
}

impl Clone for Component {
    /// Deep copy; the clone is structurally equal to the original and shares
    /// no storage with it.
    fn clone(&self) -> (r: Component)
        ensures
            component_eq(*self, r),
    {
        clone_component(self)
    }
}

// ---------------------------------------------------------------------------
// Well-formedness bridges
// ---------------------------------------------------------------------------
/// Element-wise well-formedness and sequence well-formedness coincide.
pub proof fn lemma_values_wf_pointwise(s: Seq<Value>)
    ensures
        values_wf(s) <==> (forall|i: int| 0 <= i < s.len() ==> value_wf(s[i])),
    decreases s,
{
    if s.len() > 0 {
        lemma_values_wf_pointwise(s.drop_first());
        if values_wf(s) {
            assert forall|i: int| 0 <= i < s.len() implies value_wf(s[i]) by {
                if i > 0 {
                    assert(value_wf(s.drop_first()[i - 1]));
                }
            }
        }
        if forall|i: int| 0 <= i < s.len() ==> value_wf(s[i]) {
            assert forall|i: int| 0 <= i < s.drop_first().len() implies value_wf(
                s.drop_first()[i],
            ) by {
                assert(value_wf(s[i + 1]));
            }
        }
    }
}

/// Element-wise well-formedness and field-sequence well-formedness coincide.
pub proof fn lemma_fields_wf_pointwise(s: Seq<Field>)
    ensures
        fields_wf(s) <==> (forall|i: int|
            0 <= i < s.len() ==> value_wf(s[i].value) && value_wf(s[i].default)),
    decreases s,
{
    if s.len() > 0 {
        lemma_fields_wf_pointwise(s.drop_first());
        if fields_wf(s) {
            assert forall|i: int|
                0 <= i < s.len() implies value_wf(s[i].value) && value_wf(s[i].default) by {
                if i > 0 {
                    assert(s.drop_first()[i - 1] == s[i]);
                }
            }
        }
        if forall|i: int| 0 <= i < s.len() ==> value_wf(s[i].value) && value_wf(s[i].default) {
            assert forall|i: int|
                0 <= i < s.drop_first().len() implies value_wf(s.drop_first()[i].value)
                && value_wf(s.drop_first()[i].default) by {
                assert(s.drop_first()[i] == s[i + 1]);
            }
        }
    }
}

// ---------------------------------------------------------------------------
// Executable encoding
// ---------------------------------------------------------------------------
fn bool_str(b: bool) -> (r: &'static str)
    ensures
        r@ == (if b {
            "true"@
        } else {
            "false"@
        }),
{
    if b {
        "true"
    } else {
        "false"
    }
}

fn encode_value(v: &Value) -> (s: String)
    requires
        value_wf(*v),
    ensures
        s@ == spec_encode_value(*v),
    decreases *v,
{
    match v {
        Value::Number(n) => n.encode(),
        Value::Integer(i) => i64_to_dec(*i),
        Value::Boolean(b) => String::from_str(bool_str(*b)),
        Value::Text(t) => t.clone(),
        Value::Label(t) => t.clone(),
        Value::Vec2(x) => x.encode(),
        Value::Vec3(x) => x.encode(),
        Value::Vec4(x) => x.encode(),
        Value::List(items) => {
            proof {
                lemma_subrange_full(items@);
            }
            encode_list_from(items, 0)
        },
        Value::Pairs(ps) => {
            proof {
                lemma_subrange_full(ps@);
            }
            encode_pairs_from(ps, 0)
        },
        Value::Variant(vv) => {
            proof {
                lemma_subrange_full(vv.parts@);
                lemma_subrange_full(vv.args@);
            }
            encode_template_args_from(&vv.parts, &vv.args, 0)
        },
        Value::Component(c) => encode_component(c),
    }
}

fn encode_list_from(items: &Vec<Value>, i: usize) -> (s: String)
    requires
        i <= items@.len(),
        values_wf(items@),
    ensures
        s@ == spec_encode_list(items@.subrange(i as int, items@.len() as int)),
    decreases items@.subrange(i as int, items@.len() as int),
{
    proof {
        lemma_values_wf_pointwise(items@);
    }
    if i == items.len() {
        String::new()
    } else if i + 1 == items.len() {
        proof {
            assert(items@.subrange(i as int, items@.len() as int)[0] == items@[i as int]);
        }
        encode_value(&items[i])
    } else {
        proof {
            reveal_strlit(",");
            assert(items@.subrange(i as int, items@.len() as int)[0] == items@[i as int]);
            lemma_suffix_drop_first(items@, i as int);
        }
        let mut s = encode_value(&items[i]);
        s.append(",");
        s.append(encode_list_from(items, i + 1).as_str());
        s
    }
}

fn encode_pairs_from(ps: &Vec<(String, String)>, i: usize) -> (s: String)
    requires
        i <= ps@.len(),
    ensures
        s@ == spec_encode_pairs(ps@.subrange(i as int, ps@.len() as int)),
    decreases ps@.len() - i,
{
    if i == ps.len() {
        String::new()
    } else {
        proof {
            reveal_strlit(": ");
            reveal_strlit("; ");
            assert(ps@.subrange(i as int, ps@.len() as int)[0] == ps@[i as int]);
            lemma_suffix_drop_first(ps@, i as int);
        }
        let mut s = ps[i].0.clone();
        s.append(": ");
        s.append(ps[i].1.as_str());
        s.append("; ");
        s.append(encode_pairs_from(ps, i + 1).as_str());
        s
    }
}

fn encode_template_args_from(parts: &Vec<String>, args: &Vec<Value>, i: usize) -> (s: String)
    requires
        parts@.len() == args@.len() + 1,
        i <= args@.len(),
        values_wf(args@),
    ensures
        s@ == spec_encode_template_args(
            parts@.subrange(i as int, parts@.len() as int),
            args@.subrange(i as int, args@.len() as int),
        ),
    decreases args@.subrange(i as int, args@.len() as int),
{
    proof {
        lemma_values_wf_pointwise(args@);
        assert(parts@.subrange(i as int, parts@.len() as int)[0] == parts@[i as int]);
    }
    if i == args.len() {
        parts[i].clone()
    } else {
        proof {
            assert(args@.subrange(i as int, args@.len() as int)[0] == args@[i as int]);
            lemma_suffix_drop_first(args@, i as int);
            lemma_suffix_drop_first(parts@, i as int);
        }
        let mut s = parts[i].clone();
        s.append(encode_value(&args[i]).as_str());
        s.append(encode_template_args_from(parts, args, i + 1).as_str());
        s
    }
}

fn encode_template_fields_from(parts: &Vec<String>, fields: &Vec<Field>, i: usize) -> (s: String)
    requires
        parts@.len() == fields@.len() + 1,
        i <= fields@.len(),
        fields_wf(fields@),
    ensures
        s@ == spec_encode_template_fields(
            parts@.subrange(i as int, parts@.len() as int),
            fields@.subrange(i as int, fields@.len() as int),
        ),
    decreases fields@.subrange(i as int, fields@.len() as int),
{
    proof {
        lemma_fields_wf_pointwise(fields@);
        assert(parts@.subrange(i as int, parts@.len() as int)[0] == parts@[i as int]);
    }
    if i == fields.len() {
        parts[i].clone()
    } else {
        proof {
            assert(fields@.subrange(i as int, fields@.len() as int)[0] == fields@[i as int]);
            lemma_suffix_drop_first(fields@, i as int);
            lemma_suffix_drop_first(parts@, i as int);
        }
        let mut s = parts[i].clone();
        s.append(encode_value(&fields[i].value).as_str());
        s.append(encode_template_fields_from(parts, fields, i + 1).as_str());
        s
    }
}

fn encode_delta_from(fields: &Vec<Field>, i: usize) -> (s: String)
    requires
        i <= fields@.len(),
        fields_wf(fields@),
    ensures
        s@ == spec_encode_fields_delta(fields@.subrange(i as int, fields@.len() as int)),
    decreases fields@.subrange(i as int, fields@.len() as int),
{
    proof {
        lemma_fields_wf_pointwise(fields@);
    }
    if i == fields.len() {
        String::new()
    } else {
        proof {
            assert(fields@.subrange(i as int, fields@.len() as int)[0] == fields@[i as int]);
            lemma_suffix_drop_first(fields@, i as int);
        }
        let f = &fields[i];
        let mut s: String;
        if eq_value(&f.value, &f.default) {
            s = String::new();
        } else if f.key.as_str().unicode_len() <= 1 {
            proof {
                reveal_strlit(";");
            }
            s = encode_value(&f.value);
            s.append(";");
        } else {
            proof {
                reveal_strlit(": ");
                reveal_strlit("; ");
            }
            s = f.key.clone();
            s.append(": ");
            s.append(encode_value(&f.value).as_str());
            s.append("; ");
        }
        assert(s@ == spec_delta_segment(fields@[i as int]));
        s.append(encode_delta_from(fields, i + 1).as_str());
        s
    }
}

fn encode_component(c: &Component) -> (s: String)
    requires
        component_wf(*c),
    ensures
        s@ == spec_encode_component(*c),
    decreases *c,
{
    match &c.parts {
        Some(parts) => {
            proof {
                lemma_subrange_full(parts@);
                lemma_subrange_full(c.fields@);
            }
            encode_template_fields_from(parts, &c.fields, 0)
        },
        None => {
            proof {
                lemma_subrange_full(c.fields@);
            }
            encode_delta_from(&c.fields, 0)
        },
    }
}

impl Value {
    /// Encode this value as its canonical text.
    pub fn encode(&self) -> (s: String)
        requires
            value_wf(*self),
        ensures
            s@ == spec_encode_value(*self),
    {
        encode_value(self)
    }
}

impl Component {
    /// Encode this component as its single attribute string: template
    /// substitution in template mode, default-eliding `key: value; `
    /// segments in delta mode.
    pub fn encode(&self) -> (s: String)
        requires
            component_wf(*self),
        ensures
            s@ == spec_encode_component(*self),
    {
        encode_component(self)
    }
}

// ---------------------------------------------------------------------------
// Component collections
// ---------------------------------------------------------------------------
/// A list of components, each under its property name.
#[derive(Debug)]
pub struct ComponentVec(pub Vec<(String, Component)>);

/// Every component of the list is well formed.
pub open spec fn cvec_wf(v: ComponentVec) -> bool {
    forall|i: int| 0 <= i < v.0@.len() ==> component_wf(#[trigger] v.0@[i].1)
}

/// Equality of component lists: same length and handle-wise component
/// equality at matching indices.  The property names are not compared.
pub open spec fn cvec_eq(a: ComponentVec, b: ComponentVec) -> bool {
    a.0@.len() == b.0@.len() && forall|i: int|
        0 <= i < a.0@.len() ==> component_eq(#[trigger] a.0@[i].1, b.0@[i].1)
}

impl PartialEq for ComponentVec {
    /// Length-preserving, element-wise component equality.
    fn eq(&self, other: &ComponentVec) -> (r: bool) {
        if self.0.len() != other.0.len() {
            return false;
        }
        let n = self.0.len();
        let mut i: usize = 0;
        while i < n
            invariant
                n == self.0@.len() == other.0@.len(),
                i <= n,
                forall|j: int| 0 <= j < i ==> component_eq(#[trigger] self.0@[j].1, other.0@[j].1),
            decreases n - i,
        {
            if !eq_component(&self.0[i].1, &other.0[i].1) {
                return false;
            }
            i = i + 1;
        }
        true
    }
}

impl vstd::std_specs::cmp::PartialEqSpecImpl for ComponentVec {
    open spec fn obeys_eq_spec() -> bool {
        true
    }

    open spec fn eq_spec(&self, other: &ComponentVec) -> bool {
        cvec_eq(*self, *other)
    }
}

impl Clone for ComponentVec {
    /// Deep copy: each name and each component is copied; the copies are
    /// independently owned.
    fn clone(&self) -> (r: ComponentVec)
        ensures
            r.0@.len() == self.0@.len(),
            forall|i: int| 0 <= i < self.0@.len() ==> #[trigger] r.0@[i].0@ == self.0@[i].0@,
            cvec_eq(*self, r),
    {
        let n = self.0.len();
        let mut r: Vec<(String, Component)> = Vec::new();
        let mut i: usize = 0;
        while i < n
            invariant
                n == self.0@.len(),
                i <= n,
                r@.len() == i,
                forall|j: int| 0 <= j < i ==> #[trigger] r@[j].0@ == self.0@[j].0@,
                forall|j: int| 0 <= j < i ==> component_eq(#[trigger] self.0@[j].1, r@[j].1),
            decreases n - i,
        {
            r.push((self.0[i].0.clone(), clone_component(&self.0[i].1)));
            i = i + 1;
        }
        ComponentVec(r)
    }
}

/// Equality of component lists is reflexive.
pub proof fn lemma_cvec_eq_refl(v: ComponentVec)
    ensures
        cvec_eq(v, v),
{
    assert forall|i: int| 0 <= i < v.0@.len() implies component_eq(
        #[trigger] v.0@[i].1,
        v.0@[i].1,
    ) by {
        lemma_component_eq_refl(v.0@[i].1);
    }
}

/// Equality of component lists is symmetric.
pub proof fn lemma_cvec_eq_sym(a: ComponentVec, b: ComponentVec)
    ensures
        cvec_eq(a, b) == cvec_eq(b, a),
{
    if a.0@.len() == b.0@.len() {
        assert forall|i: int|
            0 <= i < a.0@.len() implies component_eq(#[trigger] a.0@[i].1, b.0@[i].1)
            == component_eq(#[trigger] b.0@[i].1, a.0@[i].1) by {
            lemma_component_eq_sym(a.0@[i].1, b.0@[i].1);
        }
    }
}

/// Equality of component lists is transitive.
pub proof fn lemma_cvec_eq_trans(a: ComponentVec, b: ComponentVec, c: ComponentVec)
    requires
        cvec_eq(a, b),
        cvec_eq(b, c),
    ensures
        cvec_eq(a, c),
{
    assert forall|i: int| 0 <= i < a.0@.len() implies component_eq(
        #[trigger] a.0@[i].1,
        c.0@[i].1,
    ) by {
        lemma_component_eq_trans(a.0@[i].1, b.0@[i].1, c.0@[i].1);
    }
}

/// Convert one named component into a markup attribute: the property name
/// becomes the attribute name, the encoded component the attribute value.
pub fn cmp_to_attr(pair: &(String, Component)) -> (r: crate::htmlify::Attribute)
    requires
        component_wf(pair.1),
    ensures
        r.name@ == pair.0@,
        r.value@ == spec_encode_component(pair.1),
{
    crate::htmlify::Attribute { name: pair.0.clone(), value: pair.1.encode() }
}

// ---------------------------------------------------------------------------
// Raw property bags
// ---------------------------------------------------------------------------
/// Additional raw properties for a component: names mapped to already
/// encoded values, serialized as `name: value; ` per entry.
#[derive(Debug)]
pub struct MaterialProps(pub Vec<(String, String)>);

impl MaterialProps {
    /// The empty property bag.
    pub fn empty() -> (r: MaterialProps)
        ensures
            r.0@.len() == 0,
    {
        MaterialProps(Vec::new())
    }

    /// Encode as `name: value; ` per entry, in order.
    pub fn encode(&self) -> (s: String)
        ensures
            s@ == spec_encode_pairs(self.0@),
    {
        proof {
            lemma_subrange_full(self.0@);
        }
        encode_pairs_from(&self.0, 0)
    }

    /// The bag as a component field value.
    pub fn into_value(self) -> (r: Value)
        ensures
            r == Value::Pairs(self.0),
    {
        Value::Pairs(self.0)
    }
}

} // verus!

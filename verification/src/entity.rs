//! Entities: the nodes of the scene tree.
//!
//! An entity owns an ordered list of raw attributes, an ordered list of
//! named components, and its child entities.  An optional primitive tag
//! overrides the default `a-entity` markup tag.  Rendering merges the
//! components (encoded to attribute strings) with the raw attributes,
//! components first.

use vstd::prelude::*;

use crate::component::{cmp_to_attr, cvec_eq, cvec_wf, spec_encode_component, Component,
    ComponentVec};
use crate::htmlify::{attr_eq, attrs_view, node_view, nodes_view, Attribute, RenderNode,
    RenderTree};

verus! {

/// A node of the scene tree: an optional primitive-tag override, raw
/// attributes, named components, and child entities.
#[derive(Debug)]
pub struct Entity {
    pub primitive: Option<String>,
    pub attributes: Vec<Attribute>,
    pub components: ComponentVec,
    pub children: Vec<Entity>,
}

/// Every component of the entity and of its children is well formed.
pub open spec fn entity_wf(e: Entity) -> bool
    decreases e,
{
    &&& cvec_wf(e.components)
    &&& entities_wf(e.children@)
}

pub open spec fn entities_wf(s: Seq<Entity>) -> bool
    decreases s,
{
    if s.len() == 0 {
        true
    } else {
        entity_wf(s[0]) && entities_wf(s.drop_first())
    }
}

/// Structural equality of entities: same tag override, same raw attributes,
/// handle-wise equal components, and equal children.
pub open spec fn entity_eq(a: Entity, b: Entity) -> bool
    decreases a,
{
    &&& match (a.primitive, b.primitive) {
        (Some(x), Some(y)) => x@ == y@,
        (None, None) => true,
        _ => false,
    }
    &&& a.attributes@.len() == b.attributes@.len()
    &&& forall|i: int|
        0 <= i < a.attributes@.len() ==> attr_eq(#[trigger] a.attributes@[i], b.attributes@[i])
    &&& cvec_eq(a.components, b.components)
    &&& entities_eq(a.children@, b.children@)
}

pub open spec fn entities_eq(a: Seq<Entity>, b: Seq<Entity>) -> bool
    decreases a,
{
    if a.len() != b.len() {
        false
    } else if a.len() == 0 {
        true
    } else {
        entity_eq(a[0], b[0]) && entities_eq(a.drop_first(), b.drop_first())
    }
}

/// Element-wise equality and sequence equality coincide for entities.
pub proof fn lemma_entities_eq_pointwise(a: Seq<Entity>, b: Seq<Entity>)
    ensures
        entities_eq(a, b) <==> (a.len() == b.len() && forall|i: int|
            0 <= i < a.len() ==> entity_eq(a[i], b[i])),
    decreases a,
{
    if a.len() == b.len() && a.len() > 0 {
        lemma_entities_eq_pointwise(a.drop_first(), b.drop_first());
        if entities_eq(a, b) {
            assert forall|i: int| 0 <= i < a.len() implies entity_eq(a[i], b[i]) by {
                if i > 0 {
                    assert(entity_eq(a.drop_first()[i - 1], b.drop_first()[i - 1]));
                }
            }
        }
        if a.len() == b.len() && forall|i: int| 0 <= i < a.len() ==> entity_eq(a[i], b[i]) {
            assert forall|i: int| 0 <= i < a.drop_first().len() implies entity_eq(
                a.drop_first()[i],
                b.drop_first()[i],
            ) by {
                assert(entity_eq(a[i + 1], b[i + 1]));
            }
        }
    }
}

/// Element-wise well-formedness and sequence well-formedness coincide.
pub proof fn lemma_entities_wf_pointwise(s: Seq<Entity>)
    ensures
        entities_wf(s) <==> (forall|i: int| 0 <= i < s.len() ==> entity_wf(s[i])),
    decreases s,
{
    if s.len() > 0 {
        lemma_entities_wf_pointwise(s.drop_first());
        if entities_wf(s) {
            assert forall|i: int| 0 <= i < s.len() implies entity_wf(s[i]) by {
                if i > 0 {
                    assert(entity_wf(s.drop_first()[i - 1]));
                }
            }
        }
        if forall|i: int| 0 <= i < s.len() ==> entity_wf(s[i]) {
            assert forall|i: int| 0 <= i < s.drop_first().len() implies entity_wf(
                s.drop_first()[i],
            ) by {
                assert(entity_wf(s[i + 1]));
            }
        }
    }
}

/// The markup tag of an entity: its primitive override when present, the
/// generic entity tag otherwise.
pub open spec fn spec_entity_tag(e: Entity) -> Seq<char> {
    match e.primitive {
        Some(t) => t@,
        None => "a-entity"@,
    }
}

/// The merged attribute pairs of an entity: each component as an attribute
/// in declared order, then the raw attributes in declared order.  Nothing is
/// de-duplicated: a raw attribute may repeat a component's name.
pub open spec fn spec_entity_attrs(e: Entity) -> Seq<(Seq<char>, Seq<char>)> {
    e.components.0@.map_values(|p: (String, Component)| (p.0@, spec_encode_component(p.1)))
        + attrs_view(e.attributes@)
}

/// The render shape of an entity.
pub open spec fn spec_render_entity(e: Entity) -> RenderTree
    decreases e,
{
    RenderTree {
        tag: spec_entity_tag(e),
        attrs: spec_entity_attrs(e),
        children: spec_render_entities(e.children@),
    }
}

pub open spec fn spec_render_entities(s: Seq<Entity>) -> Seq<RenderTree>
    decreases s,
{
    if s.len() == 0 {
        Seq::empty()
    } else {
        seq![spec_render_entity(s[0])] + spec_render_entities(s.drop_first())
    }
}

/// `spec_render_entities` maps `spec_render_entity` over the sequence.
pub proof fn lemma_render_entities_pointwise(s: Seq<Entity>)
    ensures
        spec_render_entities(s).len() == s.len(),
        forall|i: int| 0 <= i < s.len() ==> spec_render_entities(s)[i] == spec_render_entity(s[i]),
    decreases s,
{
    if s.len() > 0 {
        lemma_render_entities_pointwise(s.drop_first());
        assert forall|i: int| 0 <= i < s.len() implies spec_render_entities(s)[i]
            == spec_render_entity(s[i]) by {
            if i > 0 {
                assert(spec_render_entities(s.drop_first())[i - 1] == spec_render_entity(
                    s.drop_first()[i - 1],
                ));
                assert(s.drop_first()[i - 1] == s[i]);
            }
        }
    }
}

impl Entity {
    /// A new generic entity.
    pub fn new(
        attributes: Vec<Attribute>,
        components: Vec<(String, Component)>,
        children: Vec<Entity>,
    ) -> (r: Entity)
        ensures
            r.primitive is None,
            r.attributes == attributes,
            r.components.0 == components,
            r.children == children,
    {
        Entity { primitive: None, attributes, components: ComponentVec(components), children }
    }

    /// A new entity rendered under a primitive tag.
    pub fn new_primitive(
        tag: &str,
        attributes: Vec<Attribute>,
        components: Vec<(String, Component)>,
        children: Vec<Entity>,
    ) -> (r: Entity)
        ensures
            r.primitive matches Some(t) && t@ == tag@,
            r.attributes == attributes,
            r.components.0 == components,
            r.children == children,
    {
        Entity {
            primitive: Some(String::from_str(tag)),
            attributes,
            components: ComponentVec(components),
            children,
        }
    }

    /// A new generic entity holding only components.
    pub fn with_components(components: Vec<(String, Component)>) -> (r: Entity)
        ensures
            r.primitive is None,
            r.attributes@.len() == 0,
            r.components.0 == components,
            r.children@.len() == 0,
    {
        Entity {
            primitive: None,
            attributes: Vec::new(),
            components: ComponentVec(components),
            children: Vec::new(),
        }
    }

    /// The raw attributes.
    pub fn attributes(&self) -> (r: &Vec<Attribute>)
        ensures
            r == &self.attributes,
    {
        &self.attributes
    }

    /// Mutable view of the raw attributes.
    pub fn attributes_mut(&mut self) -> (r: &mut Vec<Attribute>)
        ensures
            *r == old(self).attributes,
            final(self).attributes == *final(r),
            final(self).primitive == old(self).primitive,
            final(self).components == old(self).components,
            final(self).children == old(self).children,
    {
        &mut self.attributes
    }

    /// The named components.
    pub fn components(&self) -> (r: &Vec<(String, Component)>)
        ensures
            r == &self.components.0,
    {
        &self.components.0
    }

    /// Mutable view of the named components.
    pub fn components_mut(&mut self) -> (r: &mut Vec<(String, Component)>)
        ensures
            *r == old(self).components.0,
            final(self).components.0 == *final(r),
            final(self).primitive == old(self).primitive,
            final(self).attributes == old(self).attributes,
            final(self).children == old(self).children,
    {
        &mut self.components.0
    }

    /// The child entities.
    pub fn children(&self) -> (r: &Vec<Entity>)
        ensures
            r == &self.children,
    {
        &self.children
    }

    /// Mutable view of the child entities.
    pub fn children_mut(&mut self) -> (r: &mut Vec<Entity>)
        ensures
            *r == old(self).children,
            final(self).children == *final(r),
            final(self).primitive == old(self).primitive,
            final(self).attributes == old(self).attributes,
            final(self).components == old(self).components,
    {
        &mut self.children
    }

    /// The markup tag: the primitive override when present, `a-entity`
    /// otherwise.
    pub fn tag(&self) -> (r: String)
        ensures
            r@ == spec_entity_tag(*self),
    {
        match &self.primitive {
            Some(t) => t.clone(),
            None => {
                proof {
                    reveal_strlit("a-entity");
                }
                String::from_str("a-entity")
            },
        }
    }

    /// The merged attribute list: components first, raw attributes after.
    pub fn html_attributes(&self) -> (r: Vec<Attribute>)
        requires
            entity_wf(*self),
        ensures
            attrs_view(r@) == spec_entity_attrs(*self),
    {
        let ghost mapped = self.components.0@.map_values(
            |p: (String, Component)| (p.0@, spec_encode_component(p.1)),
        );
        let mut r: Vec<Attribute> = Vec::new();
        let n = self.components.0.len();
        let mut i: usize = 0;
        while i < n
            invariant
                n == self.components.0@.len(),
                i <= n,
                cvec_wf(self.components),
                mapped == self.components.0@.map_values(
                    |p: (String, Component)| (p.0@, spec_encode_component(p.1)),
                ),
                r@.len() == i,
                forall|j: int|
                    0 <= j < i ==> (#[trigger] r@[j].name@, r@[j].value@) == mapped[j],
            decreases n - i,
        {
            r.push(cmp_to_attr(&self.components.0[i]));
            i = i + 1;
        }
        let m = self.attributes.len();
        let mut k: usize = 0;
        while k < m
            invariant
                m == self.attributes@.len(),
                n == self.components.0@.len(),
                k <= m,
                r@.len() == n + k,
                forall|j: int|
                    0 <= j < n ==> (#[trigger] r@[j].name@, r@[j].value@) == mapped[j],
                forall|j: int|
                    n <= j < n + k ==> attr_eq(#[trigger] r@[j], self.attributes@[j - n]),
            decreases m - k,
        {
            r.push(self.attributes[k].clone());
            k = k + 1;
        }
        proof {
            assert forall|j: int|
                0 <= j < r@.len() implies attrs_view(r@)[j] == spec_entity_attrs(*self)[j] by {
                if j < n {
                    assert((r@[j].name@, r@[j].value@) == mapped[j]);
                } else {
                    assert(attr_eq(r@[j], self.attributes@[j - n]));
                }
            }
            assert(attrs_view(r@) =~= spec_entity_attrs(*self));
        }
        r
    }

    /// Render this entity: tag, merged attributes, rendered children.
    pub fn render(&self) -> (r: RenderNode)
        requires
            entity_wf(*self),
        ensures
            node_view(r) == spec_render_entity(*self),
        decreases *self,
    {
        proof {
            lemma_entities_wf_pointwise(self.children@);
            lemma_render_entities_pointwise(self.children@);
        }
        let mut children: Vec<RenderNode> = Vec::new();
        let n = self.children.len();
        let mut i: usize = 0;
        while i < n
            invariant
                n == self.children@.len(),
                i <= n,
                forall|j: int| 0 <= j < n ==> entity_wf(#[trigger] self.children@[j]),
                children@.len() == i,
                forall|j: int|
                    0 <= j < i ==> node_view(#[trigger] children@[j]) == spec_render_entity(
                        self.children@[j],
                    ),
            decreases n - i,
        {
            children.push(self.children[i].render());
            i = i + 1;
        }
        let r = RenderNode { tag: self.tag(), attributes: self.html_attributes(), children };
        proof {
            crate::htmlify::lemma_nodes_view_pointwise(r.children@);
            lemma_render_entities_pointwise(self.children@);
            assert(nodes_view(r.children@) =~= spec_render_entities(self.children@));
        }
        r
    }

    /// Write this entity as markup text.  Markup writing cannot fail.
    pub fn as_raw_html(&self) -> (s: String)
        requires
            entity_wf(*self),
        ensures
            s@ == crate::htmlify::spec_markup(spec_render_entity(*self)),
    {
        self.render().as_raw_html()
    }
}

impl Clone for Entity {
    /// Deep copy of the whole subtree; the copy is structurally equal and
    /// independently owned.
    fn clone(&self) -> (r: Entity)
        ensures
            entity_eq(*self, r),
        decreases *self,
    {
        let primitive = match &self.primitive {
            Some(t) => Some(t.clone()),
            None => None,
        };
        let mut attributes: Vec<Attribute> = Vec::new();
        let n = self.attributes.len();
        let mut i: usize = 0;
        while i < n
            invariant
                n == self.attributes@.len(),
                i <= n,
                attributes@.len() == i,
                forall|j: int| 0 <= j < i ==> #[trigger] attributes@[j] == self.attributes@[j],
            decreases n - i,
        {
            attributes.push(self.attributes[i].clone());
            i = i + 1;
        }
        let mut children: Vec<Entity> = Vec::new();
        let m = self.children.len();
        let mut k: usize = 0;
        while k < m
            invariant
                m == self.children@.len(),
                k <= m,
                children@.len() == k,
                forall|j: int|
                    0 <= j < k ==> entity_eq(#[trigger] self.children@[j], children@[j]),
            decreases m - k,
        {
            children.push(self.children[k].clone());
            k = k + 1;
        }
        let r = Entity {
            primitive,
            attributes,
            components: self.components.clone(),
            children,
        };
        proof {
            lemma_entities_eq_pointwise(self.children@, r.children@);
        }
        r
    }
}

impl PartialEq for Entity {
    /// Structural comparison of whole subtrees.
    fn eq(&self, other: &Entity) -> (r: bool)
        decreases *self,
    {
        let prim_ok = match &self.primitive {
            Some(x) => match &other.primitive {
                Some(y) => *x == *y,
                None => false,
            },
            None => matches!(&other.primitive, None),
        };
        if !prim_ok {
            return false;
        }
        if self.attributes.len() != other.attributes.len() {
            return false;
        }
        let n = self.attributes.len();
        let mut i: usize = 0;
        while i < n
            invariant
                n == self.attributes@.len() == other.attributes@.len(),
                i <= n,
                forall|j: int|
                    0 <= j < i ==> attr_eq(#[trigger] self.attributes@[j], other.attributes@[j]),
            decreases n - i,
        {
            if !(self.attributes[i] == other.attributes[i]) {
                return false;
            }
            i = i + 1;
        }
        if !(self.components == other.components) {
            return false;
        }
        if self.children.len() != other.children.len() {
            proof {
                lemma_entities_eq_pointwise(self.children@, other.children@);
            }
            return false;
        }
        let m = self.children.len();
        let mut k: usize = 0;
        while k < m
            invariant
                m == self.children@.len() == other.children@.len(),
                k <= m,
                forall|j: int|
                    0 <= j < k ==> entity_eq(#[trigger] self.children@[j], other.children@[j]),
            decreases m - k,
        {
            if !(self.children[k] == other.children[k]) {
                proof {
                    lemma_entities_eq_pointwise(self.children@, other.children@);
                }
                return false;
            }
            k = k + 1;
        }
        proof {
            lemma_entities_eq_pointwise(self.children@, other.children@);
        }
        true
    }
}

impl vstd::std_specs::cmp::PartialEqSpecImpl for Entity {
    open spec fn obeys_eq_spec() -> bool {
        true
    }

    open spec fn eq_spec(&self, other: &Entity) -> bool {
        entity_eq(*self, *other)
    }
}

} // verus!

//! The scene: the root of the tree, owning the assets collection, its own
//! attributes and components, and the child entities.

use vstd::prelude::*;

use crate::assets::{assets_eq, assets_wf, spec_render_assets, Assets};
use crate::component::{cmp_to_attr, cvec_eq, cvec_wf, spec_encode_component, Component,
    ComponentVec};
use crate::entity::{
    entities_eq, entities_wf, entity_wf, lemma_entities_eq_pointwise, lemma_entities_wf_pointwise,
    lemma_render_entities_pointwise, spec_render_entities, spec_render_entity, Entity,
};
use crate::htmlify::{attr_eq, attrs_view, node_view, nodes_view, Attribute, RenderNode,
    RenderTree};

verus! {

/// The tree root: one assets collection, raw attributes, components, and
/// child entities.  Exactly one scene stands at the root of a rendered tree.
#[derive(Debug)]
pub struct Scene {
    pub attributes: Vec<Attribute>,
    pub assets: Assets,
    pub components: ComponentVec,
    pub children: Vec<Entity>,
}

/// Every component of the scene, its assets and its children is well formed.
pub open spec fn scene_wf(s: Scene) -> bool {
    &&& cvec_wf(s.components)
    &&& assets_wf(s.assets)
    &&& entities_wf(s.children@)
}

/// Structural equality of scenes.
pub open spec fn scene_eq(a: Scene, b: Scene) -> bool {
    &&& a.attributes@.len() == b.attributes@.len()
    &&& forall|i: int|
        0 <= i < a.attributes@.len() ==> attr_eq(#[trigger] a.attributes@[i], b.attributes@[i])
    &&& assets_eq(a.assets, b.assets)
    &&& cvec_eq(a.components, b.components)
    &&& entities_eq(a.children@, b.children@)
}

/// The merged attribute pairs of the scene: components first, then the raw
/// attributes, in declared order.
pub open spec fn spec_scene_attrs(s: Scene) -> Seq<(Seq<char>, Seq<char>)> {
    s.components.0@.map_values(|p: (String, Component)| (p.0@, spec_encode_component(p.1)))
        + attrs_view(s.attributes@)
}

/// The render shape of the scene: the `a-scene` tag, the merged attributes,
/// and the assets node first among the children, before the entities.
pub open spec fn spec_render_scene(s: Scene) -> RenderTree {
    RenderTree {
        tag: "a-scene"@,
        attrs: spec_scene_attrs(s),
        children: seq![spec_render_assets(s.assets)] + spec_render_entities(s.children@),
    }
}

impl Scene {
    /// A new scene.
    pub fn new(
        attributes: Vec<Attribute>,
        assets: Assets,
        components: Vec<(String, Component)>,
        children: Vec<Entity>,
    ) -> (r: Scene)
        ensures
            r.attributes == attributes,
            r.assets == assets,
            r.components.0 == components,
            r.children == children,
    {
        Scene { attributes, assets, components: ComponentVec(components), children }
    }

    /// A new scene holding only components.
    pub fn with_components(components: Vec<(String, Component)>) -> (r: Scene)
        ensures
            r.attributes@.len() == 0,
            r.assets.timeout_ms == 0 && r.assets.assets@.len() == 0,
            r.components.0 == components,
            r.children@.len() == 0,
    {
        Scene {
            attributes: Vec::new(),
            assets: Assets::empty(),
            components: ComponentVec(components),
            children: Vec::new(),
        }
    }

    /// The assets collection.
    pub fn assets(&self) -> (r: &Assets)
        ensures
            r == &self.assets,
    {
        &self.assets
    }

    /// Mutable view of the assets collection.
    pub fn assets_mut(&mut self) -> (r: &mut Assets)
        ensures
            *r == old(self).assets,
            final(self).assets == *final(r),
            final(self).attributes == old(self).attributes,
            final(self).components == old(self).components,
            final(self).children == old(self).children,
    {
        &mut self.assets
    }

    /// The raw attributes.
    pub fn attributes(&self) -> (r: &Vec<Attribute>)
        ensures
            r == &self.attributes,
    {
        &self.attributes
    }

    /// Mutable view of the raw attributes.
    pub fn attributes_mut(&mut self) -> (r: &mut Vec<Attribute>)
        ensures
            *r == old(self).attributes,
            final(self).attributes == *final(r),
            final(self).assets == old(self).assets,
            final(self).components == old(self).components,
            final(self).children == old(self).children,
    {
        &mut self.attributes
    }

    /// The named components.
    pub fn components(&self) -> (r: &Vec<(String, Component)>)
        ensures
            r == &self.components.0,
    {
        &self.components.0
    }

    /// Mutable view of the named components.
    pub fn components_mut(&mut self) -> (r: &mut Vec<(String, Component)>)
        ensures
            *r == old(self).components.0,
            final(self).components.0 == *final(r),
            final(self).assets == old(self).assets,
            final(self).attributes == old(self).attributes,
            final(self).children == old(self).children,
    {
        &mut self.components.0
    }

    /// The child entities.
    pub fn children(&self) -> (r: &Vec<Entity>)
        ensures
            r == &self.children,
    {
        &self.children
    }

    /// Mutable view of the child entities.
    pub fn children_mut(&mut self) -> (r: &mut Vec<Entity>)
        ensures
            *r == old(self).children,
            final(self).children == *final(r),
            final(self).assets == old(self).assets,
            final(self).attributes == old(self).attributes,
            final(self).components == old(self).components,
    {
        &mut self.children
    }

    /// The scene's markup tag.
    pub fn tag(&self) -> (r: &'static str)
        ensures
            r@ == "a-scene"@,
    {
        "a-scene"
    }

    /// The merged attribute list: components first, raw attributes after.
    pub fn html_attributes(&self) -> (r: Vec<Attribute>)
        requires
            scene_wf(*self),
        ensures
            attrs_view(r@) == spec_scene_attrs(*self),
    {
        let ghost mapped = self.components.0@.map_values(
            |p: (String, Component)| (p.0@, spec_encode_component(p.1)),
        );
        let mut r: Vec<Attribute> = Vec::new();
        let n = self.components.0.len();
        let mut i: usize = 0;
        while i < n
            invariant
                n == self.components.0@.len(),
                i <= n,
                cvec_wf(self.components),
                mapped == self.components.0@.map_values(
                    |p: (String, Component)| (p.0@, spec_encode_component(p.1)),
                ),
                r@.len() == i,
                forall|j: int|
                    0 <= j < i ==> (#[trigger] r@[j].name@, r@[j].value@) == mapped[j],
            decreases n - i,
        {
            r.push(cmp_to_attr(&self.components.0[i]));
            i = i + 1;
        }
        let m = self.attributes.len();
        let mut k: usize = 0;
        while k < m
            invariant
                m == self.attributes@.len(),
                n == self.components.0@.len(),
                k <= m,
                r@.len() == n + k,
                forall|j: int|
                    0 <= j < n ==> (#[trigger] r@[j].name@, r@[j].value@) == mapped[j],
                forall|j: int|
                    n <= j < n + k ==> attr_eq(#[trigger] r@[j], self.attributes@[j - n]),
            decreases m - k,
        {
            r.push(self.attributes[k].clone());
            k = k + 1;
        }
        proof {
            assert forall|j: int|
                0 <= j < r@.len() implies attrs_view(r@)[j] == spec_scene_attrs(*self)[j] by {
                if j < n {
                    assert((r@[j].name@, r@[j].value@) == mapped[j]);
                } else {
                    assert(attr_eq(r@[j], self.attributes@[j - n]));
                }
            }
            assert(attrs_view(r@) =~= spec_scene_attrs(*self));
        }
        r
    }

    /// Render the scene.  The assets node always comes first among the
    /// children, before the child entities, even when the collection is
    /// empty.
    pub fn render(&self) -> (r: RenderNode)
        requires
            scene_wf(*self),
        ensures
            node_view(r) == spec_render_scene(*self),
            node_view(r).children.len() == 1 + self.children@.len(),
            node_view(r).children[0] == spec_render_assets(self.assets),
    {
        proof {
            reveal_strlit("a-scene");
            lemma_entities_wf_pointwise(self.children@);
            lemma_render_entities_pointwise(self.children@);
        }
        let mut children: Vec<RenderNode> = Vec::new();
        children.push(self.assets.render());
        let n = self.children.len();
        let mut i: usize = 0;
        while i < n
            invariant
                n == self.children@.len(),
                i <= n,
                forall|j: int| 0 <= j < n ==> entity_wf(#[trigger] self.children@[j]),
                children@.len() == i + 1,
                node_view(children@[0]) == spec_render_assets(self.assets),
                forall|j: int|
                    1 <= j <= i ==> node_view(#[trigger] children@[j]) == spec_render_entities(
                        self.children@,
                    )[j - 1],
            decreases n - i,
        {
            children.push(self.children[i].render());
            proof {
                lemma_render_entities_pointwise(self.children@);
                assert(spec_render_entities(self.children@)[i as int] == spec_render_entity(
                    self.children@[i as int],
                ));
            }
            i = i + 1;
        }
        let r = RenderNode {
            tag: String::from_str("a-scene"),
            attributes: self.html_attributes(),
            children,
        };
        proof {
            crate::htmlify::lemma_nodes_view_pointwise(r.children@);
            assert(nodes_view(r.children@) =~= seq![spec_render_assets(self.assets)]
                + spec_render_entities(self.children@));
        }
        r
    }

    /// Write the scene as markup text.  Markup writing cannot fail.
    pub fn as_raw_html(&self) -> (s: String)
        requires
            scene_wf(*self),
        ensures
            s@ == crate::htmlify::spec_markup(spec_render_scene(*self)),
    {
        self.render().as_raw_html()
    }
}

impl Clone for Scene {
    /// Deep copy of the whole tree; the copy is structurally equal and
    /// independently owned.
    fn clone(&self) -> (r: Scene)
        ensures
            scene_eq(*self, r),
    {
        let mut attributes: Vec<Attribute> = Vec::new();
        let n = self.attributes.len();
        let mut i: usize = 0;
        while i < n
            invariant
                n == self.attributes@.len(),
                i <= n,
                attributes@.len() == i,
                forall|j: int| 0 <= j < i ==> #[trigger] attributes@[j] == self.attributes@[j],
            decreases n - i,
        {
            attributes.push(self.attributes[i].clone());
            i = i + 1;
        }
        let mut children: Vec<Entity> = Vec::new();
        let m = self.children.len();
        let mut k: usize = 0;
        while k < m
            invariant
                m == self.children@.len(),
                k <= m,
                children@.len() == k,
                forall|j: int|
                    0 <= j < k ==> crate::entity::entity_eq(
                        #[trigger] self.children@[j],
                        children@[j],
                    ),
            decreases m - k,
        {
            children.push(self.children[k].clone());
            k = k + 1;
        }
        let r = Scene {
            attributes,
            assets: self.assets.clone(),
            components: self.components.clone(),
            children,
        };
        proof {
            lemma_entities_eq_pointwise(self.children@, r.children@);
        }
        r
    }
}

impl PartialEq for Scene {
    /// Structural comparison of whole trees.
    fn eq(&self, other: &Scene) -> (r: bool) {
        if self.attributes.len() != other.attributes.len() {
            return false;
        }
        let n = self.attributes.len();
        let mut i: usize = 0;
        while i < n
            invariant
                n == self.attributes@.len() == other.attributes@.len(),
                i <= n,
                forall|j: int|
                    0 <= j < i ==> attr_eq(#[trigger] self.attributes@[j], other.attributes@[j]),
            decreases n - i,
        {
            if !(self.attributes[i] == other.attributes[i]) {
                return false;
            }
            i = i + 1;
        }
        if !(self.assets == other.assets) {
            return false;
        }
        if !(self.components == other.components) {
            return false;
        }
        if self.children.len() != other.children.len() {
            proof {
                lemma_entities_eq_pointwise(self.children@, other.children@);
            }
            return false;
        }
        let m = self.children.len();
        let mut k: usize = 0;
        while k < m
            invariant
                m == self.children@.len() == other.children@.len(),
                k <= m,
                forall|j: int|
                    0 <= j < k ==> crate::entity::entity_eq(
                        #[trigger] self.children@[j],
                        other.children@[j],
                    ),
            decreases m - k,
        {
            if !(self.children[k] == other.children[k]) {
                proof {
                    lemma_entities_eq_pointwise(self.children@, other.children@);
                }
                return false;
            }
            k = k + 1;
        }
        proof {
            lemma_entities_eq_pointwise(self.children@, other.children@);
        }
        true
    }
}

impl vstd::std_specs::cmp::PartialEqSpecImpl for Scene {
    open spec fn obeys_eq_spec() -> bool {
        true
    }

    open spec fn eq_spec(&self, other: &Scene) -> bool {
        scene_eq(*self, *other)
    }
}

} // verus!

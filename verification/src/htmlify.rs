//! Markup generation: attributes, the structured render tree, and the
//! markup-text writer.
//!
//! Rendering a scene node yields a [`RenderNode`]: a tag name, a merged
//! attribute list, and rendered child nodes.  The same walk backs both
//! output targets: the markup string produced here, and a live document
//! subtree produced by a host-side consumer walking the `RenderNode`.

use vstd::prelude::*;

verus! {

/// A markup attribute: a simple name/value text pair.
#[derive(Debug)]
pub struct Attribute {
    pub name: String,
    pub value: String,
}

impl Attribute {
    /// A new attribute with the given name and value.
    pub fn new(name: &str, value: &str) -> (r: Attribute)
        ensures
            r.name@ == name@,
            r.value@ == value@,
    {
        Attribute { name: String::from_str(name), value: String::from_str(value) }
    }
}

/// Equality of attributes: same name text and value text.
pub open spec fn attr_eq(a: Attribute, b: Attribute) -> bool {
    a.name@ == b.name@ && a.value@ == b.value@
}

impl Clone for Attribute {
    /// Copy of the attribute.
    fn clone(&self) -> (r: Attribute)
        ensures
            r == *self,
    {
        Attribute { name: self.name.clone(), value: self.value.clone() }
    }
}

impl PartialEq for Attribute {
    fn eq(&self, other: &Attribute) -> (r: bool) {
        self.name == other.name && self.value == other.value
    }
}

impl vstd::std_specs::cmp::PartialEqSpecImpl for Attribute {
    open spec fn obeys_eq_spec() -> bool {
        true
    }

    open spec fn eq_spec(&self, other: &Attribute) -> bool {
        attr_eq(*self, *other)
    }
}

/// The markup text of one attribute: the bare name for an empty value
/// (boolean-style attribute), `name="value"` otherwise.
pub open spec fn spec_attr_text(name: Seq<char>, value: Seq<char>) -> Seq<char> {
    if value.len() == 0 {
        name
    } else {
        name + "=\""@ + value + "\""@
    }
}

impl Attribute {
    /// The markup text of this attribute.
    pub fn to_html_string(&self) -> (s: String)
        ensures
            s@ == spec_attr_text(self.name@, self.value@),
    {
        if self.value.as_str().unicode_len() == 0 {
            self.name.clone()
        } else {
            proof {
                reveal_strlit("=\"");
                reveal_strlit("\"");
            }
            let mut s = self.name.clone();
            s.append("=\"");
            s.append(self.value.as_str());
            s.append("\"");
            s
        }
    }
}

/// One node of the structured render output: a tag, the merged attribute
/// list, and the rendered children in order.
#[derive(Debug)]
pub struct RenderNode {
    pub tag: String,
    pub attributes: Vec<Attribute>,
    pub children: Vec<RenderNode>,
}

/// The mathematical shape of a render node.
pub struct RenderTree {
    pub tag: Seq<char>,
    pub attrs: Seq<(Seq<char>, Seq<char>)>,
    pub children: Seq<RenderTree>,
}

/// The texts of an attribute list.
pub open spec fn attrs_view(v: Seq<Attribute>) -> Seq<(Seq<char>, Seq<char>)> {
    v.map_values(|a: Attribute| (a.name@, a.value@))
}

/// The shape of a render node.
pub open spec fn node_view(n: RenderNode) -> RenderTree
    decreases n,
{
    RenderTree {
        tag: n.tag@,
        attrs: attrs_view(n.attributes@),
        children: nodes_view(n.children@),
    }
}

/// The shapes of a node sequence.
pub open spec fn nodes_view(s: Seq<RenderNode>) -> Seq<RenderTree>
    decreases s,
{
    if s.len() == 0 {
        Seq::empty()
    } else {
        seq![node_view(s[0])] + nodes_view(s.drop_first())
    }
}

/// `nodes_view` maps `node_view` over the sequence.
pub proof fn lemma_nodes_view_pointwise(s: Seq<RenderNode>)
    ensures
        nodes_view(s).len() == s.len(),
        forall|i: int| 0 <= i < s.len() ==> nodes_view(s)[i] == node_view(s[i]),
    decreases s,
{
    if s.len() > 0 {
        lemma_nodes_view_pointwise(s.drop_first());
        assert forall|i: int| 0 <= i < s.len() implies nodes_view(s)[i] == node_view(s[i]) by {
            if i > 0 {
                assert(nodes_view(s.drop_first())[i - 1] == node_view(s.drop_first()[i - 1]));
                assert(s.drop_first()[i - 1] == s[i]);
            }
        }
    }
}

/// The attribute texts joined by single spaces.
pub open spec fn spec_join_attrs(attrs: Seq<(Seq<char>, Seq<char>)>) -> Seq<char>
    decreases attrs,
{
    if attrs.len() == 0 {
        Seq::empty()
    } else if attrs.len() == 1 {
        spec_attr_text(attrs[0].0, attrs[0].1)
    } else {
        spec_attr_text(attrs[0].0, attrs[0].1) + seq![' '] + spec_join_attrs(attrs.drop_first())
    }
}

/// The markup text of one node:
/// `<TAG ATTRS> CHILDREN </TAG>` with the attribute texts space-joined, the
/// child markups concatenated with no separator, and a single space around
/// the (possibly empty) child text.
pub open spec fn spec_markup(t: RenderTree) -> Seq<char>
    decreases t,
{
    let body = spec_markup_seq(t.children);
    "<"@ + t.tag + " "@ + spec_join_attrs(t.attrs) + "> "@ + body + (if body.len() == 0 {
        Seq::<char>::empty()
    } else {
        " "@
    }) + "</"@ + t.tag + ">"@
}

/// The concatenated markup of a node sequence.
pub open spec fn spec_markup_seq(ts: Seq<RenderTree>) -> Seq<char>
    decreases ts,
{
    if ts.len() == 0 {
        Seq::empty()
    } else {
        spec_markup(ts[0]) + spec_markup_seq(ts.drop_first())
    }
}

proof fn lemma_markup_seq_push(ts: Seq<RenderTree>, t: RenderTree)
    ensures
        spec_markup_seq(ts.push(t)) == spec_markup_seq(ts) + spec_markup(t),
    decreases ts,
{
    if ts.len() == 0 {
        assert(ts.push(t).len() == 1);
        assert(ts.push(t)[0] == t);
        assert(ts.push(t).drop_first() =~= Seq::<RenderTree>::empty());
        assert(spec_markup_seq(Seq::<RenderTree>::empty()) == Seq::<char>::empty());
        assert(spec_markup_seq(ts.push(t)) == spec_markup(t) + Seq::<char>::empty());
        assert(spec_markup(t) + Seq::<char>::empty() =~= spec_markup(t));
        assert(Seq::<char>::empty() + spec_markup(t) =~= spec_markup(t));
    } else {
        assert(ts.push(t)[0] == ts[0]);
        assert(ts.push(t).drop_first() =~= ts.drop_first().push(t));
        lemma_markup_seq_push(ts.drop_first(), t);
        assert(spec_markup_seq(ts.push(t)) == spec_markup(ts[0]) + spec_markup_seq(
            ts.drop_first().push(t),
        ));
        assert(spec_markup(ts[0]) + (spec_markup_seq(ts.drop_first()) + spec_markup(t)) =~= (
        spec_markup(ts[0]) + spec_markup_seq(ts.drop_first())) + spec_markup(t));
    }
}

fn markup_attrs_from(attrs: &Vec<Attribute>, i: usize) -> (s: String)
    requires
        i <= attrs@.len(),
    ensures
        s@ == spec_join_attrs(
            attrs@.map_values(|a: Attribute| (a.name@, a.value@)).subrange(
                i as int,
                attrs@.len() as int,
            ),
        ),
    decreases attrs@.len() - i,
{
    let ghost av = attrs@.map_values(|a: Attribute| (a.name@, a.value@));
    let ghost sub = av.subrange(i as int, av.len() as int);
    if i == attrs.len() {
        String::new()
    } else if i + 1 == attrs.len() {
        proof {
            assert(sub[0] == av[i as int]);
        }
        attrs[i].to_html_string()
    } else {
        proof {
            reveal_strlit(" ");
            assert(sub[0] == av[i as int]);
            assert(sub.drop_first() =~= av.subrange(i + 1, av.len() as int));
        }
        let mut s = attrs[i].to_html_string();
        s.append(" ");
        s.append(markup_attrs_from(attrs, i + 1).as_str());
        s
    }
}

impl RenderNode {
    /// Write this node as markup text.  Markup writing is pure and total:
    /// it cannot fail.
    pub fn as_raw_html(&self) -> (s: String)
        ensures
            s@ == spec_markup(node_view(*self)),
        decreases *self,
    {
        proof {
            reveal_strlit("<");
            reveal_strlit(" ");
            reveal_strlit("> ");
            reveal_strlit("</");
            reveal_strlit(">");
            lemma_nodes_view_pointwise(self.children@);
        }
        let ghost cv = nodes_view(self.children@);
        let mut body = String::new();
        let n = self.children.len();
        let mut i: usize = 0;
        proof {
            assert(cv.subrange(0, 0) =~= Seq::<RenderTree>::empty());
        }
        while i < n
            invariant
                n == self.children@.len(),
                i <= n,
                cv == nodes_view(self.children@),
                cv.len() == n,
                forall|j: int| 0 <= j < n ==> cv[j] == node_view(self.children@[j]),
                body@ == spec_markup_seq(cv.subrange(0, i as int)),
            decreases n - i,
        {
            body.append(self.children[i].as_raw_html().as_str());
            proof {
                lemma_markup_seq_push(cv.subrange(0, i as int), cv[i as int]);
                assert(cv.subrange(0, i as int).push(cv[i as int]) =~= cv.subrange(0, i + 1));
            }
            i = i + 1;
        }
        proof {
            assert(cv.subrange(0, n as int) =~= cv);
        }
        let mut s = String::from_str("<");
        s.append(self.tag.as_str());
        s.append(" ");
        s.append(markup_attrs_from(&self.attributes, 0).as_str());
        proof {
            let av = self.attributes@.map_values(|a: Attribute| (a.name@, a.value@));
            assert(av.subrange(0, av.len() as int) =~= av);
        }
        s.append("> ");
        s.append(body.as_str());
        if body.as_str().unicode_len() != 0 {
            s.append(" ");
        }
        s.append("</");
        s.append(self.tag.as_str());
        s.append(">");
        s
    }
}

} // verus!

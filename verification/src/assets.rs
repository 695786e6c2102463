//! Assets and mixins: the resources collected under a scene's asset list.

use vstd::prelude::*;

use crate::component::{cmp_to_attr, cvec_eq, cvec_wf, spec_encode_component, Component,
    ComponentVec};
use crate::htmlify::{attrs_view, node_view, nodes_view, Attribute, RenderNode, RenderTree};
use crate::num::{spec_udec, u64_to_dec};

verus! {

/// Preload behavior for audio and video assets.  Ignored if autoplay is set.
#[derive(Clone, Copy, Debug, PartialEq, Eq, Structural)]
pub enum Preload {
    Auto,
    Metadata,
    NoPreload,
}

/// The wire token of a preload mode.
pub open spec fn spec_preload_label(p: Preload) -> Seq<char> {
    match p {
        Preload::Auto => "auto"@,
        Preload::Metadata => "metadata"@,
        Preload::NoPreload => "none"@,
    }
}

impl Preload {
    /// The wire token of this preload mode.
    pub fn label(&self) -> (r: &'static str)
        ensures
            r@ == spec_preload_label(*self),
    {
        match self {
            Preload::Auto => "auto",
            Preload::Metadata => "metadata",
            Preload::NoPreload => "none",
        }
    }
}

/// An untyped asset: an id and a source path.
#[derive(Debug)]
pub struct AssetItem {
    pub id: String,
    pub src: String,
}

/// An image asset.
#[derive(Debug)]
pub struct Image {
    pub id: String,
    pub src: String,
}

/// A video asset.
#[derive(Debug)]
pub struct Video {
    pub id: String,
    pub src: String,
    pub autoplay: bool,
    pub preload: Preload,
}

/// An audio asset.
#[derive(Debug)]
pub struct Audio {
    pub id: String,
    pub src: String,
    pub autoplay: bool,
    pub preload: Preload,
}

/// A mixin: a named bundle of components that entities can reference.
#[derive(Debug)]
pub struct Mixin {
    pub id: String,
    pub components: ComponentVec,
}

/// An individual asset or mixin.
#[derive(Debug)]
pub enum Asset {
    Item(AssetItem),
    Image(Image),
    Video(Video),
    Audio(Audio),
    Mixin(Mixin),
}

impl AssetItem {
    /// A new untyped asset.
    pub fn new(id: &str, src: &str) -> (r: Asset)
        ensures
            r matches Asset::Item(x) && x.id@ == id@ && x.src@ == src@,
    {
        Asset::Item(AssetItem { id: String::from_str(id), src: String::from_str(src) })
    }
}

impl Image {
    /// A new image asset.
    pub fn new(id: &str, src: &str) -> (r: Asset)
        ensures
            r matches Asset::Image(x) && x.id@ == id@ && x.src@ == src@,
    {
        Asset::Image(Image { id: String::from_str(id), src: String::from_str(src) })
    }
}

impl Video {
    /// A new video asset, neither autoplaying nor preloading.
    pub fn new(id: &str, src: &str) -> (r: Asset)
        ensures
            r matches Asset::Video(x) && x.id@ == id@ && x.src@ == src@ && x.autoplay == false
                && x.preload == Preload::NoPreload,
    {
        Asset::Video(
            Video {
                id: String::from_str(id),
                src: String::from_str(src),
                autoplay: false,
                preload: Preload::NoPreload,
            },
        )
    }

    /// A new autoplaying video asset.
    pub fn autoplay(id: &str, src: &str) -> (r: Asset)
        ensures
            r matches Asset::Video(x) && x.id@ == id@ && x.src@ == src@ && x.autoplay == true
                && x.preload == Preload::NoPreload,
    {
        Asset::Video(
            Video {
                id: String::from_str(id),
                src: String::from_str(src),
                autoplay: true,
                preload: Preload::NoPreload,
            },
        )
    }

    /// A new video asset with the given preload behavior.
    pub fn preload(id: &str, src: &str, preload: Preload) -> (r: Asset)
        ensures
            r matches Asset::Video(x) && x.id@ == id@ && x.src@ == src@ && x.autoplay == false
                && x.preload == preload,
    {
        Asset::Video(
            Video { id: String::from_str(id), src: String::from_str(src), autoplay: false, preload },
        )
    }
}

impl Audio {
    /// A new audio asset, neither autoplaying nor preloading.
    pub fn new(id: &str, src: &str) -> (r: Asset)
        ensures
            r matches Asset::Audio(x) && x.id@ == id@ && x.src@ == src@ && x.autoplay == false
                && x.preload == Preload::NoPreload,
    {
        Asset::Audio(
            Audio {
                id: String::from_str(id),
                src: String::from_str(src),
                autoplay: false,
                preload: Preload::NoPreload,
            },
        )
    }

    /// A new autoplaying audio asset.
    pub fn autoplay(id: &str, src: &str) -> (r: Asset)
        ensures
            r matches Asset::Audio(x) && x.id@ == id@ && x.src@ == src@ && x.autoplay == true
                && x.preload == Preload::NoPreload,
    {
        Asset::Audio(
            Audio {
                id: String::from_str(id),
                src: String::from_str(src),
                autoplay: true,
                preload: Preload::NoPreload,
            },
        )
    }

    /// A new audio asset with the given preload behavior.
    pub fn preload(id: &str, src: &str, preload: Preload) -> (r: Asset)
        ensures
            r matches Asset::Audio(x) && x.id@ == id@ && x.src@ == src@ && x.autoplay == false
                && x.preload == preload,
    {
        Asset::Audio(
            Audio { id: String::from_str(id), src: String::from_str(src), autoplay: false, preload },
        )
    }
}

impl Mixin {
    /// A new mixin holding the given named components.
    pub fn new(id: &str, components: Vec<(String, Component)>) -> (r: Asset)
        ensures
            r matches Asset::Mixin(x) && x.id@ == id@ && x.components.0 == components,
    {
        Asset::Mixin(Mixin { id: String::from_str(id), components: ComponentVec(components) })
    }
}

/// The source path of an asset; a mixin has none and yields the empty text.
pub open spec fn spec_asset_src(a: Asset) -> Seq<char> {
    match a {
        Asset::Item(x) => x.src@,
        Asset::Image(x) => x.src@,
        Asset::Video(x) => x.src@,
        Asset::Audio(x) => x.src@,
        Asset::Mixin(_) => Seq::empty(),
    }
}

/// The markup tag of an asset.
pub open spec fn spec_asset_tag(a: Asset) -> Seq<char> {
    match a {
        Asset::Item(_) => "a-asset-item"@,
        Asset::Image(_) => "img"@,
        Asset::Video(_) => "video"@,
        Asset::Audio(_) => "audio"@,
        Asset::Mixin(_) => "a-mixin"@,
    }
}

/// A mixin's components must be well formed; other assets always are.
pub open spec fn asset_wf(a: Asset) -> bool {
    match a {
        Asset::Mixin(m) => cvec_wf(m.components),
        _ => true,
    }
}

/// Structural equality of assets.
pub open spec fn asset_eq(a: Asset, b: Asset) -> bool {
    match (a, b) {
        (Asset::Item(x), Asset::Item(y)) => x.id@ == y.id@ && x.src@ == y.src@,
        (Asset::Image(x), Asset::Image(y)) => x.id@ == y.id@ && x.src@ == y.src@,
        (Asset::Video(x), Asset::Video(y)) => x.id@ == y.id@ && x.src@ == y.src@ && x.autoplay
            == y.autoplay && x.preload == y.preload,
        (Asset::Audio(x), Asset::Audio(y)) => x.id@ == y.id@ && x.src@ == y.src@ && x.autoplay
            == y.autoplay && x.preload == y.preload,
        (Asset::Mixin(x), Asset::Mixin(y)) => x.id@ == y.id@ && cvec_eq(x.components, y.components),
        _ => false,
    }
}

/// The attribute pairs of an asset, as the renderer emits them.
pub open spec fn spec_asset_attrs(a: Asset) -> Seq<(Seq<char>, Seq<char>)> {
    match a {
        Asset::Item(x) => seq![("id"@, x.id@), ("src"@, x.src@)],
        Asset::Image(x) => seq![("id"@, x.id@), ("src"@, x.src@)],
        Asset::Video(x) => seq![
            ("id"@, x.id@),
            ("src"@, x.src@),
            ("autoplay"@, if x.autoplay {
                "true"@
            } else {
                "false"@
            }),
            ("preload"@, spec_preload_label(x.preload)),
        ],
        Asset::Audio(x) => seq![("id"@, x.id@), ("src"@, x.src@)] + (if x.autoplay {
            seq![("autoplay"@, "true"@)]
        } else {
            Seq::empty()
        }) + (if x.preload != Preload::NoPreload {
            seq![("preload"@, spec_preload_label(x.preload))]
        } else {
            Seq::empty()
        }),
        Asset::Mixin(x) => seq![("id"@, x.id@)] + x.components.0@.map_values(
            |p: (String, Component)| (p.0@, spec_encode_component(p.1)),
        ),
    }
}

/// The render shape of an asset: tag, attributes, no children.
pub open spec fn spec_render_asset(a: Asset) -> RenderTree {
    RenderTree { tag: spec_asset_tag(a), attrs: spec_asset_attrs(a), children: Seq::empty() }
}

impl Asset {
    /// The source path; the empty text for a mixin.
    pub fn src(&self) -> (r: &str)
        ensures
            r@ == spec_asset_src(*self),
    {
        match self {
            Asset::Item(x) => x.src.as_str(),
            Asset::Image(x) => x.src.as_str(),
            Asset::Video(x) => x.src.as_str(),
            Asset::Audio(x) => x.src.as_str(),
            Asset::Mixin(_) => {
                proof {
                    reveal_strlit("");
                }
                ""
            },
        }
    }

    /// The markup tag of this asset.
    pub fn tag(&self) -> (r: &'static str)
        ensures
            r@ == spec_asset_tag(*self),
    {
        match self {
            Asset::Item(_) => "a-asset-item",
            Asset::Image(_) => "img",
            Asset::Video(_) => "video",
            Asset::Audio(_) => "audio",
            Asset::Mixin(_) => "a-mixin",
        }
    }

    /// The attribute list this asset renders with.
    pub fn attributes(&self) -> (r: Vec<Attribute>)
        requires
            asset_wf(*self),
        ensures
            attrs_view(r@) == spec_asset_attrs(*self),
    {
        let mut r: Vec<Attribute> = Vec::new();
        match self {
            Asset::Item(x) => {
                r.push(Attribute::new("id", x.id.as_str()));
                r.push(Attribute::new("src", x.src.as_str()));
                assert(attrs_view(r@) =~= spec_asset_attrs(*self));
            },
            Asset::Image(x) => {
                r.push(Attribute::new("id", x.id.as_str()));
                r.push(Attribute::new("src", x.src.as_str()));
                assert(attrs_view(r@) =~= spec_asset_attrs(*self));
            },
            Asset::Video(x) => {
                r.push(Attribute::new("id", x.id.as_str()));
                r.push(Attribute::new("src", x.src.as_str()));
                r.push(Attribute::new("autoplay", if x.autoplay {
                    "true"
                } else {
                    "false"
                }));
                r.push(Attribute::new("preload", x.preload.label()));
                assert(attrs_view(r@) =~= spec_asset_attrs(*self));
            },
            Asset::Audio(x) => {
                r.push(Attribute::new("id", x.id.as_str()));
                r.push(Attribute::new("src", x.src.as_str()));
                if x.autoplay {
                    r.push(Attribute::new("autoplay", "true"));
                }
                if !matches!(x.preload, Preload::NoPreload) {
                    r.push(Attribute::new("preload", x.preload.label()));
                }
                assert(attrs_view(r@) =~= spec_asset_attrs(*self));
            },
            Asset::Mixin(x) => {
                r.push(Attribute::new("id", x.id.as_str()));
                let ghost mapped = x.components.0@.map_values(
                    |p: (String, Component)| (p.0@, spec_encode_component(p.1)),
                );
                let n = x.components.0.len();
                let mut i: usize = 0;
                while i < n
                    invariant
                        n == x.components.0@.len(),
                        i <= n,
                        cvec_wf(x.components),
                        mapped == x.components.0@.map_values(
                            |p: (String, Component)| (p.0@, spec_encode_component(p.1)),
                        ),
                        r@.len() == i + 1,
                        r@[0].name@ == "id"@ && r@[0].value@ == x.id@,
                        forall|j: int|
                            1 <= j <= i ==> (#[trigger] r@[j].name@, r@[j].value@) == mapped[j
                                - 1],
                    decreases n - i,
                {
                    r.push(cmp_to_attr(&x.components.0[i]));
                    i = i + 1;
                }
                proof {
                    assert forall|k: int|
                        0 <= k < r@.len() implies attrs_view(r@)[k] == spec_asset_attrs(*self)[k]
                        by {
                        if k > 0 {
                            assert((r@[k].name@, r@[k].value@) == mapped[k - 1]);
                        }
                    }
                    assert(attrs_view(r@) =~= spec_asset_attrs(*self));
                }
            },
        }
        r
    }

    /// Render this asset: a leaf node with its tag and attributes.
    pub fn render(&self) -> (r: RenderNode)
        requires
            asset_wf(*self),
        ensures
            node_view(r) == spec_render_asset(*self),
    {
        let r = RenderNode {
            tag: String::from_str(self.tag()),
            attributes: self.attributes(),
            children: Vec::new(),
        };
        proof {
            assert(nodes_view(r.children@) =~= Seq::<RenderTree>::empty());
        }
        r
    }

    /// Write this asset as markup text.
    pub fn as_raw_html(&self) -> (s: String)
        requires
            asset_wf(*self),
        ensures
            s@ == crate::htmlify::spec_markup(spec_render_asset(*self)),
    {
        self.render().as_raw_html()
    }
}

impl Clone for Asset {
    /// Deep copy; the copy is structurally equal and independently owned.
    fn clone(&self) -> (r: Asset)
        ensures
            asset_eq(*self, r),
    {
        match self {
            Asset::Item(x) => Asset::Item(AssetItem { id: x.id.clone(), src: x.src.clone() }),
            Asset::Image(x) => Asset::Image(Image { id: x.id.clone(), src: x.src.clone() }),
            Asset::Video(x) => Asset::Video(
                Video {
                    id: x.id.clone(),
                    src: x.src.clone(),
                    autoplay: x.autoplay,
                    preload: x.preload,
                },
            ),
            Asset::Audio(x) => Asset::Audio(
                Audio {
                    id: x.id.clone(),
                    src: x.src.clone(),
                    autoplay: x.autoplay,
                    preload: x.preload,
                },
            ),
            Asset::Mixin(x) => Asset::Mixin(
                Mixin { id: x.id.clone(), components: x.components.clone() },
            ),
        }
    }
}

impl PartialEq for Asset {
    /// Structural comparison; assets of different kinds compare unequal.
    fn eq(&self, other: &Asset) -> (r: bool) {
        match self {
            Asset::Item(x) => match other {
                Asset::Item(y) => x.id == y.id && x.src == y.src,
                _ => false,
            },
            Asset::Image(x) => match other {
                Asset::Image(y) => x.id == y.id && x.src == y.src,
                _ => false,
            },
            Asset::Video(x) => match other {
                Asset::Video(y) => x.id == y.id && x.src == y.src && x.autoplay == y.autoplay
                    && x.preload == y.preload,
                _ => false,
            },
            Asset::Audio(x) => match other {
                Asset::Audio(y) => x.id == y.id && x.src == y.src && x.autoplay == y.autoplay
                    && x.preload == y.preload,
                _ => false,
            },
            Asset::Mixin(x) => match other {
                Asset::Mixin(y) => x.id == y.id && x.components == y.components,
                _ => false,
            },
        }
    }
}

impl vstd::std_specs::cmp::PartialEqSpecImpl for Asset {
    open spec fn obeys_eq_spec() -> bool {
        true
    }

    open spec fn eq_spec(&self, other: &Asset) -> bool {
        asset_eq(*self, *other)
    }
}

/// A collection of assets for use in a scene.
#[derive(Debug)]
pub struct Assets {
    pub timeout_ms: u32,
    pub assets: Vec<Asset>,
}

impl Assets {
    /// A new collection with the given load timeout and assets.
    pub fn new(timeout_ms: u32, assets: Vec<Asset>) -> (r: Assets)
        ensures
            r.timeout_ms == timeout_ms,
            r.assets == assets,
    {
        Assets { timeout_ms, assets }
    }

    /// The empty collection.
    pub fn empty() -> (r: Assets)
        ensures
            r.timeout_ms == 0,
            r.assets@.len() == 0,
    {
        Assets { timeout_ms: 0, assets: Vec::new() }
    }
}

/// Every asset of the collection is well formed.
pub open spec fn assets_wf(a: Assets) -> bool {
    forall|i: int| 0 <= i < a.assets@.len() ==> asset_wf(#[trigger] a.assets@[i])
}

/// Structural equality of asset collections.
pub open spec fn assets_eq(a: Assets, b: Assets) -> bool {
    &&& a.timeout_ms == b.timeout_ms
    &&& a.assets@.len() == b.assets@.len()
    &&& forall|i: int| 0 <= i < a.assets@.len() ==> asset_eq(#[trigger] a.assets@[i], b.assets@[i])
}

/// The attribute pairs of the asset container: only a positive timeout is
/// emitted.
pub open spec fn spec_assets_attrs(a: Assets) -> Seq<(Seq<char>, Seq<char>)> {
    if a.timeout_ms == 0 {
        Seq::empty()
    } else {
        seq![("timeout"@, spec_udec(a.timeout_ms as nat))]
    }
}

/// The render shape of the asset container: its tag, its timeout attribute
/// when present, and the contained assets in order.
pub open spec fn spec_render_assets(a: Assets) -> RenderTree {
    RenderTree {
        tag: "a-assets"@,
        attrs: spec_assets_attrs(a),
        children: a.assets@.map_values(|x: Asset| spec_render_asset(x)),
    }
}

impl Assets {
    /// The attribute list the container renders with.
    pub fn attributes(&self) -> (r: Vec<Attribute>)
        ensures
            attrs_view(r@) == spec_assets_attrs(*self),
    {
        let mut r: Vec<Attribute> = Vec::new();
        if self.timeout_ms > 0 {
            let t = u64_to_dec(self.timeout_ms as u64);
            let mut a = String::from_str("timeout");
            proof {
                reveal_strlit("timeout");
            }
            r.push(Attribute { name: a, value: t });
        }
        assert(attrs_view(r@) =~= spec_assets_attrs(*self));
        r
    }

    /// Render the asset container and its assets.
    pub fn render(&self) -> (r: RenderNode)
        requires
            assets_wf(*self),
        ensures
            node_view(r) == spec_render_assets(*self),
    {
        proof {
            reveal_strlit("a-assets");
        }
        let ghost mapped = self.assets@.map_values(|x: Asset| spec_render_asset(x));
        let mut children: Vec<RenderNode> = Vec::new();
        let n = self.assets.len();
        let mut i: usize = 0;
        while i < n
            invariant
                n == self.assets@.len(),
                i <= n,
                assets_wf(*self),
                mapped == self.assets@.map_values(|x: Asset| spec_render_asset(x)),
                children@.len() == i,
                forall|j: int| 0 <= j < i ==> node_view(#[trigger] children@[j]) == mapped[j],
            decreases n - i,
        {
            children.push(self.assets[i].render());
            i = i + 1;
        }
        let r = RenderNode {
            tag: String::from_str("a-assets"),
            attributes: self.attributes(),
            children,
        };
        proof {
            crate::htmlify::lemma_nodes_view_pointwise(r.children@);
            assert(nodes_view(r.children@) =~= mapped);
        }
        r
    }

    /// Write the asset container as markup text.
    pub fn as_raw_html(&self) -> (s: String)
        requires
            assets_wf(*self),
        ensures
            s@ == crate::htmlify::spec_markup(spec_render_assets(*self)),
    {
        self.render().as_raw_html()
    }
}

impl Clone for Assets {
    /// Deep copy; the copy is structurally equal and independently owned.
    fn clone(&self) -> (r: Assets)
        ensures
            assets_eq(*self, r),
    {
        let n = self.assets.len();
        let mut assets: Vec<Asset> = Vec::new();
        let mut i: usize = 0;
        while i < n
            invariant
                n == self.assets@.len(),
                i <= n,
                assets@.len() == i,
                forall|j: int| 0 <= j < i ==> asset_eq(#[trigger] self.assets@[j], assets@[j]),
            decreases n - i,
        {
            assets.push(self.assets[i].clone());
            i = i + 1;
        }
        Assets { timeout_ms: self.timeout_ms, assets }
    }
}

impl PartialEq for Assets {
    /// Structural comparison of collections.
    fn eq(&self, other: &Assets) -> (r: bool) {
        if self.timeout_ms != other.timeout_ms || self.assets.len() != other.assets.len() {
            return false;
        }
        let n = self.assets.len();
        let mut i: usize = 0;
        while i < n
            invariant
                n == self.assets@.len() == other.assets@.len(),
                self.timeout_ms == other.timeout_ms,
                i <= n,
                forall|j: int| 0 <= j < i ==> asset_eq(#[trigger] self.assets@[j], other.assets@[j]),
            decreases n - i,
        {
            if !(self.assets[i] == other.assets[i]) {
                return false;
            }
            i = i + 1;
        }
        true
    }
}

impl vstd::std_specs::cmp::PartialEqSpecImpl for Assets {
    open spec fn obeys_eq_spec() -> bool {
        true
    }

    open spec fn eq_spec(&self, other: &Assets) -> bool {
        assets_eq(*self, *other)
    }
}

} // verus!

//! Which image sources a node tree names, and how each is to be fetched.
use vstd::prelude::*;

use takumi::prelude::ImageSource;

use crate::node::{lemma_nodes_view, node_view, nodes_view, Node, NodeView};
use crate::path::{is_absolute, join, path_is_absolute, path_join};
use crate::text::{
    chars_of, contains_exec, contains_seq, starts_with_exec, starts_with_seq, string_views,
};

verus! {

// ---------------------------------------------------------------------------
// Image sources of a tree.
// ---------------------------------------------------------------------------

/// The `src` of every image in the tree, in document (pre-) order.
pub open spec fn image_sources(n: NodeView) -> Seq<Seq<char>>
    decreases n,
{
    match n {
        NodeView::Image { src, .. } => seq![src],
        NodeView::Container { children, .. } => match children {
            Some(kids) => image_sources_of(kids),
            None => seq![],
        },
        NodeView::Text { .. } => seq![],
    }
}

/// The image sources of a sequence of trees, one after another.
pub open spec fn image_sources_of(kids: Seq<NodeView>) -> Seq<Seq<char>>
    decreases kids,
{
    if kids.len() == 0 {
        seq![]
    } else {
        image_sources_of(kids.drop_last()) + image_sources(kids.last())
    }
}

/// Appends the `src` of every image in the tree to `sources`, in document order.
pub fn collect_image_sources(node: &Node, sources: &mut Vec<String>)
    ensures
        string_views(final(sources)@) == string_views(old(sources)@) + image_sources(node@),
    decreases node,
{
    match node {
        Node::Image(img) => {
            let ghost before = sources@;
            sources.push(img.src.clone());
            assert(string_views(sources@) =~= string_views(before) + seq![img.src@]);
        },
        Node::Container(container) => {
            match &container.children {
                Some(children) => {
                    let ghost start = string_views(sources@);
                    let mut k: usize = 0;
                    proof {
                        lemma_nodes_view(children@);
                    }
                    while k < children.len()
                        invariant
                            *node == Node::Container(*container),
                            container.children == Some(*children),
                            0 <= k <= children@.len(),
                            nodes_view(children@).len() == children@.len(),
                            forall|i: int|
                                0 <= i < children@.len() ==> #[trigger] nodes_view(children@)[i]
                                    == node_view(children@[i]),
                            string_views(sources@) == start + image_sources_of(
                                nodes_view(children@).take(k as int),
                            ),
                        decreases children@.len() - k,
                    {
                        proof {
                            assert(decreases_to!(*node => (*node)->Container_0));
                            assert(decreases_to!(*container => container.children));
                            assert(decreases_to!(container.children => container.children->Some_0));
                            assert(decreases_to!(*children => children@));
                            assert(decreases_to!(children@ => children@[k as int]));
                            assert(decreases_to!(*node => children@[k as int]));
                        }
                        collect_image_sources(&children[k], sources);
                        proof {
                            let kids = nodes_view(children@);
                            assert(kids.take(k + 1).drop_last() =~= kids.take(k as int));
                            assert(kids.take(k + 1).last() == node_view(children@[k as int]));
                            assert(string_views(sources@) =~= start + image_sources_of(
                                kids.take(k + 1),
                            ));
                        }
                        k += 1;
                    }
                    assert(nodes_view(children@).take(children@.len() as int) =~= nodes_view(
                        children@,
                    ));
                },
                None => {
                    assert(string_views(sources@) =~= string_views(sources@) + seq![]);
                },
            }
        },
        Node::Text(_) => {
            assert(string_views(sources@) =~= string_views(sources@) + seq![]);
        },
    }
}

// ---------------------------------------------------------------------------
// How one source is fetched.
// ---------------------------------------------------------------------------

/// An inline SVG document: it contains both `<svg` and `xmlns`.
pub open spec fn is_inline_svg_spec(src: Seq<char>) -> bool {
    contains_seq(src, "<svg"@) && contains_seq(src, "xmlns"@)
}

/// Whether the source is an inline SVG document.
pub fn is_inline_svg(src: &str) -> (r: bool)
    ensures
        r == is_inline_svg_spec(src@),
{
    let s = chars_of(src);
    let svg = chars_of("<svg");
    let xmlns = chars_of("xmlns");
    contains_exec(s.as_slice(), svg.as_slice()) && contains_exec(s.as_slice(), xmlns.as_slice())
}

/// The file a local source names: itself when absolute, else joined onto the base directory.
pub open spec fn local_path(src: Seq<char>, base_dir: Seq<char>) -> Seq<char> {
    if path_is_absolute(src) {
        src
    } else {
        path_join(base_dir, src)
    }
}

/// The file a local image source names.
pub fn resolve_local_path(src: &str, base_dir: &str) -> (r: String)
    ensures
        r@ == local_path(src@, base_dir@),
{
    if is_absolute(src) {
        String::from_str(src)
    } else {
        join(base_dir, src)
    }
}

/// How an image source is obtained.
#[derive(PartialEq, Eq, Structural, Clone, Copy, Debug)]
pub enum SourceKind {
    /// A `data:` URI or inline SVG: the renderer reads it itself.
    Embedded,
    /// An `http://` or `https://` URL: fetched over the network.
    Remote,
    /// Anything else: a file path.
    Local,
}

/// How an image source is obtained.
pub open spec fn source_kind(src: Seq<char>) -> SourceKind {
    if starts_with_seq(src, "data:"@) || is_inline_svg_spec(src) {
        SourceKind::Embedded
    } else if starts_with_seq(src, "http://"@) || starts_with_seq(src, "https://"@) {
        SourceKind::Remote
    } else {
        SourceKind::Local
    }
}

/// How the image source is obtained.
pub fn classify_source(src: &str) -> (r: SourceKind)
    ensures
        r == source_kind(src@),
{
    let s = chars_of(src);
    let data = chars_of("data:");
    if starts_with_exec(s.as_slice(), data.as_slice()) || is_inline_svg(src) {
        return SourceKind::Embedded;
    }
    let http = chars_of("http://");
    let https = chars_of("https://");
    if starts_with_exec(s.as_slice(), http.as_slice()) || starts_with_exec(
        s.as_slice(),
        https.as_slice(),
    ) {
        SourceKind::Remote
    } else {
        SourceKind::Local
    }
}

/// A fetch for the caller to make.
#[derive(Debug, Clone, PartialEq, Eq)]
pub enum ImageFetch {
    /// Download `url`, then decode it.
    Remote { source: String, url: String },
    /// Read the file at `path`, then decode it.
    Local { source: String, path: String },
}

/// Model of a fetch: the source, whether it is remote, and the URL or path.
pub open spec fn fetch_view(f: ImageFetch) -> (Seq<char>, bool, Seq<char>) {
    match f {
        ImageFetch::Remote { source, url } => (source@, true, url@),
        ImageFetch::Local { source, path } => (source@, false, path@),
    }
}

/// The fetch a source needs, if any: none for an embedded source.
pub open spec fn fetch_for(src: Seq<char>, base_dir: Seq<char>) -> Option<(Seq<char>, bool, Seq<char>)> {
    match source_kind(src) {
        SourceKind::Embedded => None,
        SourceKind::Remote => Some((src, true, src)),
        SourceKind::Local => Some((src, false, local_path(src, base_dir))),
    }
}

/// The fetch the source needs, if any.
pub fn plan_fetch(src: &str, base_dir: &str) -> (r: Option<ImageFetch>)
    ensures
        r matches Some(f) ==> fetch_for(src@, base_dir@) == Some(fetch_view(f)),
        r is None ==> fetch_for(src@, base_dir@) is None,
{
    match classify_source(src) {
        SourceKind::Embedded => None,
        SourceKind::Remote => Some(
            ImageFetch::Remote { source: String::from_str(src), url: String::from_str(src) },
        ),
        SourceKind::Local => Some(
            ImageFetch::Local {
                source: String::from_str(src),
                path: resolve_local_path(src, base_dir),
            },
        ),
    }
}

/// Every image of a tree contributes its `src`, in document order, whatever
/// the containers around it carry: an image gives its own `src`, text gives
/// nothing, a container gives nothing without children and, with children,
/// what its earlier children give followed by what its last child gives; and
/// a container's tag name, class, id and `tw` change nothing.
pub proof fn lemma_image_sources_structure(
    tag_name: Option<Seq<char>>,
    class_name: Option<Seq<char>>,
    id: Option<Seq<char>>,
    tw: Option<Seq<char>>,
    kids: Seq<NodeView>,
    last: NodeView,
    src: Seq<char>,
    width: Option<Seq<char>>,
    height: Option<Seq<char>>,
    text: Seq<char>,
)
    ensures
        image_sources(
            NodeView::Image { tag_name, class_name, id, src, width, height, tw },
        ) == seq![src],
        image_sources(NodeView::Text { tag_name, class_name, id, text, tw }) == Seq::<
            Seq<char>,
        >::empty(),
        image_sources(NodeView::Container { tag_name, class_name, id, tw, children: None })
            == Seq::<Seq<char>>::empty(),
        image_sources(
            NodeView::Container { tag_name, class_name, id, tw, children: Some(seq![]) },
        ) == Seq::<Seq<char>>::empty(),
        image_sources(
            NodeView::Container { tag_name, class_name, id, tw, children: Some(kids.push(last)) },
        ) == image_sources(
            NodeView::Container { tag_name, class_name, id, tw, children: Some(kids) },
        ) + image_sources(last),
        image_sources(NodeView::Container { tag_name, class_name, id, tw, children: Some(kids) })
            == image_sources(
            NodeView::Container {
                tag_name: None,
                class_name: None,
                id: None,
                tw: None,
                children: Some(kids),
            },
        ),
{
    assert(kids.push(last).drop_last() =~= kids);
}

/// How a source is fetched, for every source and base directory: an embedded
/// source (`data:` or inline SVG) is not fetched; an `http://` or `https://`
/// URL is downloaded as it is; any other source is a file, taken as it is
/// when absolute and relative to the base directory otherwise.
pub proof fn lemma_fetch_for_sources(src: Seq<char>, base_dir: Seq<char>)
    ensures
        (starts_with_seq(src, "data:"@) || is_inline_svg_spec(src)) ==> fetch_for(
            src,
            base_dir,
        ) is None,
        !(starts_with_seq(src, "data:"@) || is_inline_svg_spec(src)) && (starts_with_seq(
            src,
            "http://"@,
        ) || starts_with_seq(src, "https://"@)) ==> fetch_for(src, base_dir) == Some(
            (src, true, src),
        ),
        !(starts_with_seq(src, "data:"@) || is_inline_svg_spec(src)) && !(starts_with_seq(
            src,
            "http://"@,
        ) || starts_with_seq(src, "https://"@)) && !path_is_absolute(src) ==> fetch_for(
            src,
            base_dir,
        ) == Some((src, false, path_join(base_dir, src))),
        !(starts_with_seq(src, "data:"@) || is_inline_svg_spec(src)) && !(starts_with_seq(
            src,
            "http://"@,
        ) || starts_with_seq(src, "https://"@)) && path_is_absolute(src) ==> fetch_for(
            src,
            base_dir,
        ) == Some((src, false, src)),
        !path_is_absolute(src) ==> local_path(src, base_dir) == path_join(base_dir, src),
        path_is_absolute(src) ==> local_path(src, base_dir) == src,
{
}

// ---------------------------------------------------------------------------
// Decoding fetched bytes.
// ---------------------------------------------------------------------------

#[verifier::external_type_specification]
#[verifier::external_body]
pub struct ExImageSource(ImageSource);

/// Whether `ImageSource::from_bytes` accepts these bytes (as an SVG document,
/// an animation or a still bitmap). A function of the bytes alone.
pub uninterp spec fn image_decodes(bytes: Seq<u8>) -> bool;

/// The image that `ImageSource::from_bytes` makes of these bytes, where it
/// makes one. Decoding is a function of the bytes alone, so the image (its
/// content; the heap cells that hold it are fresh on each call) is too.
pub uninterp spec fn decoded_image(bytes: Seq<u8>) -> ImageSource;

/// The image that the bytes encode, if they encode one.
///
/// Calls takumi's `ImageSource::from_bytes`, which decodes the bytes and
/// fails on bytes it cannot decode. The contract says when it succeeds,
/// through the name `image_decodes`, and names the image it returns,
/// `decoded_image` of the bytes; the image itself is opaque here.
#[verifier::external_body]
fn decode_image(bytes: &[u8]) -> (r: Option<ImageSource>)
    ensures
        r is Some <==> image_decodes(bytes@),
        r matches Some(img) ==> img == decoded_image(bytes@),
{
    ImageSource::from_bytes(bytes).ok()
}

// ---------------------------------------------------------------------------
// Resolving the sources of a tree, one fetch at a time.
// ---------------------------------------------------------------------------

/// Model of the resolver.
pub struct ResolverView {
    pub sources: Seq<Seq<char>>,
    pub base_dir: Seq<char>,
    pub next: nat,
    pub resolved: Seq<Seq<char>>,
}

/// Walks the image sources of a tree in order and hands out the fetches to
/// make, skipping a source once an image for it has been stored.
pub struct ImageResolver {
    sources: Vec<String>,
    base_dir: String,
    next: usize,
    resolved: Vec<String>,
}

impl View for ImageResolver {
    type V = ResolverView;

    closed spec fn view(&self) -> ResolverView {
        ResolverView {
            sources: string_views(self.sources@),
            base_dir: self.base_dir@,
            next: self.next as nat,
            resolved: string_views(self.resolved@),
        }
    }
}

/// The first source at or after `i` that is neither resolved nor embedded.
pub open spec fn pending_from(r: ResolverView, i: int) -> Option<int>
    decreases r.sources.len() - i,
{
    if i < 0 || i >= r.sources.len() {
        None
    } else if !r.resolved.contains(r.sources[i]) && fetch_for(r.sources[i], r.base_dir) is Some {
        Some(i)
    } else {
        pending_from(r, i + 1)
    }
}

/// The next fetch and the resolver after it: the first pending source from
/// `next` on, after which the walk continues.
pub open spec fn next_fetch_spec(r: ResolverView) -> (ResolverView, Option<
    (Seq<char>, bool, Seq<char>),
>) {
    match pending_from(r, r.next as int) {
        Some(i) => (
            ResolverView { next: (i + 1) as nat, ..r },
            fetch_for(r.sources[i], r.base_dir),
        ),
        None => (ResolverView { next: r.sources.len(), ..r }, None),
    }
}

/// A pending source found from `i` on lies at or after `i`, is not resolved,
/// and needs a fetch.
pub proof fn lemma_pending_from(r: ResolverView, i: int)
    requires
        0 <= i,
    ensures
        pending_from(r, i) matches Some(j) ==> i <= j < r.sources.len() && !r.resolved.contains(
            r.sources[j],
        ) && fetch_for(r.sources[j], r.base_dir) is Some,
    decreases r.sources.len() - i,
{
    if i < r.sources.len() {
        lemma_pending_from(r, i + 1);
    }
}

impl ImageResolver {
    #[verifier::type_invariant]
    spec fn inv(self) -> bool {
        self.next <= self.sources@.len()
    }

    /// A resolver for the image sources of `node`; local paths are taken
    /// relative to `base_dir`.
    pub fn new(node: &Node, base_dir: &str) -> (r: ImageResolver)
        ensures
            r@ == (ResolverView {
                sources: image_sources(node@),
                base_dir: base_dir@,
                next: 0,
                resolved: seq![],
            }),
    {
        let mut sources: Vec<String> = Vec::new();
        assert(string_views(sources@) =~= seq![]);
        collect_image_sources(node, &mut sources);
        assert(seq![] + image_sources(node@) =~= image_sources(node@));
        let resolved: Vec<String> = Vec::new();
        assert(string_views(resolved@) =~= seq![]);
        ImageResolver { sources, base_dir: String::from_str(base_dir), next: 0, resolved }
    }

    /// Whether an image for `source` has been stored.
    fn is_resolved(&self, source: &String) -> (r: bool)
        ensures
            r == self@.resolved.contains(source@),
    {
        let mut k: usize = 0;
        while k < self.resolved.len()
            invariant
                0 <= k <= self.resolved@.len(),
                forall|j: int| 0 <= j < k ==> self.resolved@[j]@ != source@,
            decreases self.resolved@.len() - k,
        {
            if self.resolved[k] == *source {
                assert(string_views(self.resolved@)[k as int] == source@);
                return true;
            }
            k += 1;
        }
        assert forall|j: int| 0 <= j < self@.resolved.len() implies self@.resolved[j]
            != source@ by {
            assert(string_views(self.resolved@)[j] == self.resolved@[j]@);
        }
        false
    }

    /// The next fetch to make, if any source is left to fetch. A source whose
    /// image has been stored is not handed out again.
    pub fn next_fetch(&mut self) -> (r: Option<ImageFetch>)
        ensures
            (final(self)@, match r {
                Some(f) => Some(fetch_view(f)),
                None => None,
            }) == next_fetch_spec(old(self)@),
            old(self)@.next <= final(self)@.next,
            r is Some ==> old(self)@.next < final(self)@.next,
            r matches Some(f) ==> !old(self)@.resolved.contains(fetch_view(f).0),
    {
        proof {
            use_type_invariant(&*self);
        }
        let n = self.sources.len();
        let mut i = self.next;
        while i < n
            invariant
                self.next <= i <= n,
                n == self.sources@.len(),
                self@ == old(self)@,
                pending_from(self@, self.next as int) == pending_from(self@, i as int),
            decreases n - i,
        {
            let src = &self.sources[i];
            if !self.is_resolved(src) {
                let plan = plan_fetch(src.as_str(), self.base_dir.as_str());
                if plan.is_some() {
                    proof {
                        assert(string_views(self.sources@)[i as int] == src@);
                    }
                    self.next = i + 1;
                    return plan;
                }
            }
            proof {
                assert(string_views(self.sources@)[i as int] == self.sources@[i as int]@);
            }
            i += 1;
        }
        self.next = n;
        None
    }

    /// Takes what a fetch for `source` brought (`None` where it failed) and
    /// decodes it. Where an image comes of it, `source` counts as resolved and
    /// the image decoded from those bytes is returned; otherwise the resolver
    /// is left as it was.
    pub fn image_fetched(&mut self, source: &str, bytes: Option<Vec<u8>>) -> (r: Option<
        ImageSource,
    >)
        ensures
            r is Some <==> (bytes matches Some(b) && image_decodes(b@)),
            r matches Some(img) ==> (bytes matches Some(b) && img == decoded_image(b@)),
            r is Some ==> final(self)@ == (ResolverView {
                resolved: old(self)@.resolved.push(source@),
                ..old(self)@
            }),
            r is None ==> final(self)@ == old(self)@,
    {
        match bytes {
            Some(b) => {
                let image = decode_image(b.as_slice());
                match image {
                    Some(img) => {
                        self.mark_resolved(source);
                        Some(img)
                    },
                    None => None,
                }
            },
            None => None,
        }
    }

    /// Records that an image for `source` has been stored.
    pub fn mark_resolved(&mut self, source: &str)
        ensures
            final(self)@ == (ResolverView { resolved: old(self)@.resolved.push(source@), ..old(self)@ }),
    {
        proof {
            use_type_invariant(&*self);
        }
        let mut resolved: Vec<String> = Vec::new();
        std::mem::swap(&mut resolved, &mut self.resolved);
        let ghost before = resolved@;
        resolved.push(String::from_str(source));
        assert(string_views(resolved@) =~= string_views(before).push(source@));
        self.resolved = resolved;
    }
}

} // verus!

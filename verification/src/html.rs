//! HTML to node tree.
//!
//! The document is parsed by `tl`; this module walks the parsed nodes and
//! builds the library's node tree. `style` attributes become generated
//! class names with one CSS rule each, `class`, `id` and `tw` are carried
//! over, `<img>` becomes an image, and non-blank raw text becomes a text node.
use takumi::prelude::TailwindValues;
use vstd::prelude::*;

use crate::node::{
    lemma_nodes_view_push, node_view, nodes_view, opt_view, ContainerNode, ImageNode, Node,
    NodeView, TextNode,
};
use crate::text::{
    chars_eq, chars_of, decimal, lowercase, push_chars, push_decimal, string_of, string_views,
    to_lowercase, trim_exec, trim_ws, TrimSet,
};

verus! {

// ---------------------------------------------------------------------------
// The parsed document, as `tl` gives it.
// ---------------------------------------------------------------------------

/// A document parsed by `tl`.
#[verifier::external_type_specification]
#[verifier::external_body]
pub struct ExVDom<'a>(tl::VDom<'a>);

/// The error `tl::parse` reports.
#[verifier::external_type_specification]
#[verifier::external_body]
pub struct ExParseError(tl::ParseError);

/// Model of one parsed node.
pub enum DomNodeView {
    /// An element: its name, its attributes (each with its value, if it has
    /// one) and the handles of its direct children.
    Tag { name: Seq<char>, attributes: Map<Seq<char>, Option<Seq<char>>>, children: Seq<u32> },
    /// Text between tags.
    Raw(Seq<char>),
    /// A comment.
    Comment,
}

/// The node table of a parsed document; a node handle is an index into it.
pub uninterp spec fn dom_nodes(dom: tl::VDom) -> Seq<DomNodeView>;

/// The handles of the document's top-level nodes.
pub uninterp spec fn dom_top(dom: tl::VDom) -> Seq<u32>;

/// The node table and top-level handles that `tl::parse` makes of a text.
pub uninterp spec fn parsed_html(html: Seq<char>) -> (Seq<DomNodeView>, Seq<u32>);

/// One parsed node, as the library reads it.
pub enum DomNode {
    Tag { name: String, children: Vec<u32> },
    Raw(String),
    Comment,
}

/// The node a handle names, if the handle is in the table.
pub open spec fn node_at_spec(nodes: Seq<DomNodeView>, h: u32) -> Option<DomNodeView> {
    if (h as int) < nodes.len() {
        Some(nodes[h as int])
    } else {
        None
    }
}

/// Whether the library's reading of a node agrees with the model.
pub open spec fn dom_node_matches(n: DomNode, v: DomNodeView) -> bool {
    match (n, v) {
        (DomNode::Tag { name, children }, DomNodeView::Tag { name: vn, children: vc, .. }) => name@
            == vn && children@ == vc,
        (DomNode::Raw(s), DomNodeView::Raw(vs)) => s@ == vs,
        (DomNode::Comment, DomNodeView::Comment) => true,
        _ => false,
    }
}

/// An attribute of the node at a handle: `None` when the node is no element
/// or lacks the attribute, `Some(None)` when the attribute has no value.
pub open spec fn attribute_spec(nodes: Seq<DomNodeView>, h: u32, key: Seq<char>) -> Option<
    Option<Seq<char>>,
> {
    match node_at_spec(nodes, h) {
        Some(DomNodeView::Tag { attributes, .. }) => if attributes.dom().contains(key) {
            Some(attributes[key])
        } else {
            None
        },
        _ => None,
    }
}

/// Parses an HTML document.
///
/// Calls `tl::parse` with default options. Its source shows that it fails
/// exactly when the input is longer than `u32::MAX` bytes; the document it
/// builds is named, not written out.
#[verifier::external_body]
fn parse_document(html: &str) -> (r: Result<tl::VDom<'_>, tl::ParseError>)
    ensures
        r is Ok <==> html.len() <= u32::MAX,
        r matches Ok(d) ==> (dom_nodes(d), dom_top(d)) == parsed_html(html@),
{
    tl::parse(html, tl::ParserOptions::default())
}

/// The handles of the top-level nodes.
///
/// Calls `VDom::children` and `NodeHandle::get_inner` on each handle.
#[verifier::external_body]
fn top_handles(dom: &tl::VDom<'_>) -> (r: Vec<u32>)
    ensures
        r@ == dom_top(*dom),
{
    dom.children().iter().map(|h| h.get_inner()).collect()
}

/// The number of nodes in the document's node table.
///
/// Calls `VDom::nodes` and takes its length.
#[verifier::external_body]
fn node_count(dom: &tl::VDom<'_>) -> (r: usize)
    ensures
        r == dom_nodes(*dom).len(),
{
    dom.nodes().len()
}

/// The node a handle names.
///
/// Calls `NodeHandle::get`, which looks the handle up in the node table, and
/// converts what it finds: an element's name (`as_utf8_str`) and direct
/// children (`children().top()`), a text's content (`as_utf8_str`), or a comment.
#[verifier::external_body]
fn node_at(dom: &tl::VDom<'_>, h: u32) -> (r: Option<DomNode>)
    ensures
        r is Some <==> node_at_spec(dom_nodes(*dom), h) is Some,
        r matches Some(n) ==> dom_node_matches(n, node_at_spec(dom_nodes(*dom), h)->0),
{
    match tl::NodeHandle::new(h).get(dom.parser()) {
        Some(tl::Node::Tag(t)) => Some(DomNode::Tag {
            name: t.name().as_utf8_str().into_owned(),
            children: t.children().top().iter().map(|c| c.get_inner()).collect(),
        }),
        Some(tl::Node::Raw(b)) => Some(DomNode::Raw(b.as_utf8_str().into_owned())),
        Some(tl::Node::Comment(_)) => Some(DomNode::Comment),
        None => None,
    }
}

/// An attribute of the element a handle names.
///
/// Calls `NodeHandle::get` and `Attributes::get`, and converts the value with
/// `as_utf8_str`.
#[verifier::external_body]
fn attribute(dom: &tl::VDom<'_>, h: u32, key: &str) -> (r: Option<Option<String>>)
    ensures
        match (r, attribute_spec(dom_nodes(*dom), h, key@)) {
            (None, None) => true,
            (Some(None), Some(None)) => true,
            (Some(Some(v)), Some(Some(m))) => v@ == m,
            _ => false,
        },
{
    match tl::NodeHandle::new(h).get(dom.parser()) {
        Some(tl::Node::Tag(t)) => t.attributes().get(key).map(
            |v| v.map(|b| b.as_utf8_str().into_owned()),
        ),
        _ => None,
    }
}

/// Whether takumi accepts a `tw` attribute's text.
///
/// Calls `TailwindValues::from_str` (through `str::parse`). In the version of takumi this library
/// builds on, it splits the text at white space, skips what it does not
/// recognise and returns `Ok` for every text, which is what the contract says.
#[verifier::external_body]
fn tailwind_accepts(tw: &str) -> (r: bool)
    ensures
        r,
{
    tw.parse::<TailwindValues>().is_ok()
}

// ---------------------------------------------------------------------------
// The conversion, as a function of the parsed document.
// ---------------------------------------------------------------------------

/// The CSS rules generated so far, and the number of generated class names.
pub struct SheetState {
    pub sheets: Seq<Seq<char>>,
    pub counter: nat,
}

/// An attribute's value; an attribute without value counts as absent.
pub open spec fn attr_value(nodes: Seq<DomNodeView>, h: u32, key: Seq<char>) -> Option<Seq<char>> {
    match attribute_spec(nodes, h, key) {
        Some(Some(v)) => Some(v),
        _ => None,
    }
}

/// The class name generated for the `n`-th `style` attribute: `_s{n}`.
pub open spec fn generated_class(n: nat) -> Seq<char> {
    "_s"@ + decimal(n)
}

/// The CSS rule for a generated class: `.{class} { {style} }`.
pub open spec fn style_rule(class: Seq<char>, style: Seq<char>) -> Seq<char> {
    "."@ + class + " { "@ + style + " }"@
}

/// The class name of a node: the `class` attribute, the generated class, or
/// both separated by a space.
pub open spec fn merge_class(user: Option<Seq<char>>, generated: Option<Seq<char>>) -> Option<
    Seq<char>,
> {
    match (user, generated) {
        (Some(u), Some(g)) => Some(u + " "@ + g),
        (Some(u), None) => Some(u),
        (None, Some(g)) => Some(g),
        (None, None) => None,
    }
}

/// The text of a raw node: its content trimmed of white space.
pub open spec fn raw_text(nodes: Seq<DomNodeView>, h: u32) -> Option<Seq<char>> {
    match node_at_spec(nodes, h) {
        Some(DomNodeView::Raw(s)) => Some(trim_ws(s)),
        _ => None,
    }
}

/// The direct text of a tag: the trimmed, non-empty texts of its raw
/// children, joined with single spaces.
pub open spec fn text_content(nodes: Seq<DomNodeView>, hs: Seq<u32>) -> Seq<char>
    decreases hs.len(),
{
    if hs.len() == 0 {
        seq![]
    } else {
        let prev = text_content(nodes, hs.drop_last());
        match raw_text(nodes, hs.last()) {
            Some(t) => if t.len() == 0 {
                prev
            } else if prev.len() == 0 {
                t
            } else {
                prev + " "@ + t
            },
            None => prev,
        }
    }
}

/// A `style` attribute's effect on the state: a non-empty style gets the next
/// generated class name and a rule for it.
pub open spec fn style_effect(style: Option<Seq<char>>, st: SheetState) -> (Option<Seq<char>>, SheetState) {
    match style {
        Some(s) => if s.len() > 0 {
            let cls = generated_class(st.counter);
            (
                Some(cls),
                SheetState { sheets: st.sheets.push(style_rule(cls, s)), counter: st.counter + 1 },
            )
        } else {
            (None, st)
        },
        None => (None, st),
    }
}

/// The node that a parsed node becomes, and the state after it. `fuel` bounds
/// the depth of the walk; the document is a tree, so the node count suffices.
pub open spec fn convert_node_spec(nodes: Seq<DomNodeView>, h: u32, st: SheetState, fuel: nat) -> (
    Option<NodeView>,
    SheetState,
)
    decreases fuel, 0nat,
{
    if fuel == 0 {
        (None, st)
    } else {
        match node_at_spec(nodes, h) {
            Some(DomNodeView::Tag { name, children, .. }) => {
                let tag_name = lowercase(name);
                let (generated, st1) = style_effect(attr_value(nodes, h, "style"@), st);
                let class_name = merge_class(attr_value(nodes, h, "class"@), generated);
                let id = attr_value(nodes, h, "id"@);
                let tw = attr_value(nodes, h, "tw"@);
                if tag_name == "img"@ {
                    (
                        Some(
                            NodeView::Image {
                                tag_name: Some("img"@),
                                class_name,
                                id,
                                src: match attr_value(nodes, h, "src"@) {
                                    Some(s) => s,
                                    None => seq![],
                                },
                                width: attr_value(nodes, h, "width"@),
                                height: attr_value(nodes, h, "height"@),
                                tw,
                            },
                        ),
                        st1,
                    )
                } else {
                    let (kids, st2) = convert_children_spec(
                        nodes,
                        children,
                        st1,
                        (fuel - 1) as nat,
                    );
                    let text = text_content(nodes, children);
                    if kids.len() == 0 && text.len() > 0 {
                        (
                            Some(
                                NodeView::Text {
                                    tag_name: Some(tag_name),
                                    class_name,
                                    id,
                                    text,
                                    tw,
                                },
                            ),
                            st2,
                        )
                    } else {
                        (
                            Some(
                                NodeView::Container {
                                    tag_name: Some(tag_name),
                                    class_name,
                                    id,
                                    tw,
                                    children: if kids.len() == 0 {
                                        None
                                    } else {
                                        Some(kids)
                                    },
                                },
                            ),
                            st2,
                        )
                    }
                }
            },
            Some(DomNodeView::Raw(s)) => {
                let t = trim_ws(s);
                if t.len() == 0 {
                    (None, st)
                } else {
                    (
                        Some(
                            NodeView::Text {
                                tag_name: None,
                                class_name: None,
                                id: None,
                                text: t,
                                tw: None,
                            },
                        ),
                        st,
                    )
                }
            },
            _ => (None, st),
        }
    }
}

/// The nodes that a list of handles becomes, in order, skipping those that
/// become nothing, and the state after them.
pub open spec fn convert_children_spec(
    nodes: Seq<DomNodeView>,
    hs: Seq<u32>,
    st: SheetState,
    fuel: nat,
) -> (Seq<NodeView>, SheetState)
    decreases fuel, hs.len() + 1,
{
    if hs.len() == 0 {
        (seq![], st)
    } else {
        let (prev, st1) = convert_children_spec(nodes, hs.drop_last(), st, fuel);
        let (n, st2) = convert_node_spec(nodes, hs.last(), st1, fuel);
        match n {
            Some(v) => (prev.push(v), st2),
            None => (prev, st2),
        }
    }
}

/// The node tree and style sheets of a parsed document: the converted
/// top-level nodes, as the root when there is exactly one, else wrapped in a
/// container without tag.
pub open spec fn document_spec(doc: (Seq<DomNodeView>, Seq<u32>)) -> (NodeView, Seq<Seq<char>>) {
    let (nodes, top) = doc;
    let (kids, st) = convert_children_spec(
        nodes,
        top,
        SheetState { sheets: seq![], counter: 0 },
        nodes.len(),
    );
    let root = if kids.len() == 1 {
        kids[0]
    } else {
        NodeView::Container {
            tag_name: None,
            class_name: None,
            id: None,
            tw: None,
            children: Some(kids),
        }
    };
    (root, st.sheets)
}

// ---------------------------------------------------------------------------
// The conversion.
// ---------------------------------------------------------------------------

/// Why an HTML document could not be read.
#[derive(PartialEq, Eq, Structural, Clone, Copy, Debug)]
pub enum HtmlError {
    /// The document is longer than `u32::MAX` bytes.
    InputTooLarge,
}

/// The state of the conversion held in a vector of rules and a counter.
pub open spec fn state_of(sheets: Seq<String>, counter: usize) -> SheetState {
    SheetState { sheets: string_views(sheets), counter: counter as nat }
}

/// The model of an optional node.
pub open spec fn opt_node_view(n: Option<Node>) -> Option<NodeView> {
    match n {
        Some(x) => Some(node_view(x)),
        None => None,
    }
}

/// An attribute's value, absent when the attribute has no value.
fn attr_text(dom: &tl::VDom<'_>, h: u32, key: &str) -> (r: Option<String>)
    ensures
        opt_view(r) == attr_value(dom_nodes(*dom), h, key@),
{
    match attribute(dom, h, key) {
        Some(Some(v)) => Some(v),
        _ => None,
    }
}

/// Applies a `style` attribute: a non-empty style gets the next generated
/// class name, whose rule is added to `sheets`.
fn apply_style(style: &Option<String>, sheets: &mut Vec<String>, counter: &mut usize) -> (r: Option<
    String,
>)
    requires
        *old(counter) <= old(sheets)@.len() || style_effect(
            opt_view(*style),
            state_of(old(sheets)@, *old(counter)),
        ).1.counter <= usize::MAX,
    ensures
        *old(counter) <= old(sheets)@.len() ==> *final(counter) <= final(sheets)@.len(),
        (opt_view(r), state_of(final(sheets)@, *final(counter))) == style_effect(
            opt_view(*style),
            state_of(old(sheets)@, *old(counter)),
        ),
{
    match style {
        Some(s) => {
            if s.as_str().is_empty() {
                None
            } else {
                let mut cls = String::from_str("_s");
                push_decimal(&mut cls, *counter);
                let mut rule = String::from_str(".");
                rule.append(cls.as_str());
                rule.append(" { ");
                rule.append(s.as_str());
                rule.append(" }");
                let ghost before = sheets@;
                sheets.push(rule);
                assert(sheets@.len() == sheets.len());
                *counter = *counter + 1;
                proof {
                    assert(string_views(sheets@) =~= string_views(before).push(rule@));
                    assert(rule@ =~= style_rule(cls@, s@));
                }
                Some(cls)
            }
        },
        None => None,
    }
}

/// Joins the `class` attribute and the generated class.
fn merge_class_exec(user: Option<String>, generated: Option<String>) -> (r: Option<String>)
    ensures
        opt_view(r) == merge_class(opt_view(user), opt_view(generated)),
{
    match (user, generated) {
        (Some(u), Some(g)) => {
            let mut m = u;
            m.append(" ");
            m.append(g.as_str());
            Some(m)
        },
        (Some(u), None) => Some(u),
        (None, Some(g)) => Some(g),
        (None, None) => None,
    }
}

/// Collect direct text content from a tag's children (non-recursive for simple cases).
fn collect_text_content(dom: &tl::VDom<'_>, children: &Vec<u32>) -> (r: String)
    ensures
        r@ == text_content(dom_nodes(*dom), children@),
{
    let mut text = String::new();
    let mut k: usize = 0;
    while k < children.len()
        invariant
            0 <= k <= children@.len(),
            text@ == text_content(dom_nodes(*dom), children@.take(k as int)),
        decreases children@.len() - k,
    {
        let h = children[k];
        proof {
            assert(children@.take(k + 1).drop_last() =~= children@.take(k as int));
            assert(children@.take(k + 1).last() == h);
        }
        match node_at(dom, h) {
            Some(DomNode::Raw(s)) => {
                let cs = chars_of(s.as_str());
                let trimmed = trim_exec(cs.as_slice(), TrimSet::WhiteSpace);
                if trimmed.len() > 0 {
                    if !text.as_str().is_empty() {
                        text.append(" ");
                    }
                    push_chars(&mut text, trimmed.as_slice());
                }
            },
            _ => {},
        }
        k += 1;
    }
    assert(children@.take(children@.len() as int) =~= children@);
    text
}

/// Converts the node a handle names, threading the generated style rules:
/// `counter` is the number of the next generated class, and each element with
/// a non-empty `style` (in document order, nothing below an `img`) gets the
/// next class and appends its rule to `sheets`. `fuel` bounds the depth.
pub fn convert_node(
    dom: &tl::VDom<'_>,
    h: u32,
    sheets: &mut Vec<String>,
    counter: &mut usize,
    fuel: usize,
) -> (r: Option<Node>)
    requires
        *old(counter) <= old(sheets)@.len() || convert_node_spec(
            dom_nodes(*dom),
            h,
            state_of(old(sheets)@, *old(counter)),
            fuel as nat,
        ).1.counter <= usize::MAX,
    ensures
        *old(counter) <= old(sheets)@.len() ==> *final(counter) <= final(sheets)@.len(),
        (opt_node_view(r), state_of(final(sheets)@, *final(counter))) == convert_node_spec(
            dom_nodes(*dom),
            h,
            state_of(old(sheets)@, *old(counter)),
            fuel as nat,
        ),
        *final(counter) == *old(counter) + node_styles(dom_nodes(*dom), h, fuel as nat).len(),
        string_views(final(sheets)@) == string_views(old(sheets)@) + rules_from(
            *old(counter) as nat,
            node_styles(dom_nodes(*dom), h, fuel as nat),
        ),
        forall|j: int|
            0 <= j < node_styles(dom_nodes(*dom), h, fuel as nat).len() ==> visit_has_class(
                dom_nodes(*dom),
                #[trigger] styled_visits(
                    dom_nodes(*dom),
                    h,
                    state_of(old(sheets)@, *old(counter)),
                    fuel as nat,
                )[j],
                (*old(counter) + j) as nat,
            ),
    decreases fuel, 0nat,
{
    proof {
        let st = state_of(sheets@, *counter);
        lemma_node_rules(dom_nodes(*dom), h, st, fuel as nat);
        lemma_node_class_numbering(dom_nodes(*dom), h, st, fuel as nat);
    }
    if fuel == 0 {
        return None;
    }
    match node_at(dom, h) {
        Some(DomNode::Tag { name, children }) => {
            let tag_name = to_lowercase(name.as_str());
            let style = attr_text(dom, h, "style");
            let class_attr = attr_text(dom, h, "class");
            let id = attr_text(dom, h, "id");
            let tw = match attr_text(dom, h, "tw") {
                Some(t) => if tailwind_accepts(t.as_str()) {
                    Some(t)
                } else {
                    None
                },
                None => None,
            };
            proof {
                let nodes = dom_nodes(*dom);
                let st = state_of(sheets@, *counter);
                lemma_style_effect_rules(nodes, h, st);
                let st1 = style_effect(attr_value(nodes, h, "style"@), st).1;
                if let Some(DomNodeView::Tag { name: nm, children: ch, .. }) = node_at_spec(
                    nodes,
                    h,
                ) {
                    if lowercase(nm) != "img"@ {
                        lemma_children_rules(nodes, ch, st1, (fuel - 1) as nat);
                    }
                }
            }
            let generated = apply_style(&style, sheets, counter);
            let class_name = merge_class_exec(class_attr, generated);
            let tn = chars_of(tag_name.as_str());
            let img = chars_of("img");
            if chars_eq(tn.as_slice(), img.as_slice()) {
                let src = match attr_text(dom, h, "src") {
                    Some(s) => s,
                    None => String::new(),
                };
                let width = attr_text(dom, h, "width");
                let height = attr_text(dom, h, "height");
                return Some(
                    Node::Image(
                        ImageNode {
                            tag_name: Some(String::from_str("img")),
                            class_name,
                            id,
                            src,
                            width,
                            height,
                            tw,
                        },
                    ),
                );
            }
            let kids = convert_children(dom, &children, sheets, counter, fuel - 1);
            if kids.len() == 0 {
                let text = collect_text_content(dom, &children);
                if !text.as_str().is_empty() {
                    return Some(
                        Node::Text(TextNode { tag_name: Some(tag_name), class_name, id, text, tw }),
                    );
                }
            }
            let kids_opt = if kids.len() == 0 {
                None
            } else {
                Some(kids)
            };
            Some(
                Node::Container(
                    ContainerNode {
                        tag_name: Some(tag_name),
                        class_name,
                        id,
                        tw,
                        children: kids_opt,
                    },
                ),
            )
        },
        Some(DomNode::Raw(s)) => {
            let cs = chars_of(s.as_str());
            let trimmed = trim_exec(cs.as_slice(), TrimSet::WhiteSpace);
            if trimmed.len() == 0 {
                None
            } else {
                Some(
                    Node::Text(
                        TextNode {
                            tag_name: None,
                            class_name: None,
                            id: None,
                            text: string_of(trimmed.as_slice()),
                            tw: None,
                        },
                    ),
                )
            }
        },
        _ => None,
    }
}

/// Converts the nodes that a list of handles names, in order.
fn convert_children(
    dom: &tl::VDom<'_>,
    hs: &Vec<u32>,
    sheets: &mut Vec<String>,
    counter: &mut usize,
    fuel: usize,
) -> (r: Vec<Node>)
    requires
        *old(counter) <= old(sheets)@.len() || convert_children_spec(
            dom_nodes(*dom),
            hs@,
            state_of(old(sheets)@, *old(counter)),
            fuel as nat,
        ).1.counter <= usize::MAX,
    ensures
        *old(counter) <= old(sheets)@.len() ==> *final(counter) <= final(sheets)@.len(),
        (nodes_view(r@), state_of(final(sheets)@, *final(counter))) == convert_children_spec(
            dom_nodes(*dom),
            hs@,
            state_of(old(sheets)@, *old(counter)),
            fuel as nat,
        ),
    decreases fuel, hs@.len() + 1,
{
    let ghost st0 = state_of(sheets@, *counter);
    let ghost bounded = *counter <= sheets@.len();
    let ghost nodes = dom_nodes(*dom);
    let mut out: Vec<Node> = Vec::new();
    let mut k: usize = 0;
    assert(hs@.take(0) =~= seq![]);
    assert(nodes_view(out@) =~= seq![]);
    while k < hs.len()
        invariant
            0 <= k <= hs@.len(),
            nodes == dom_nodes(*dom),
            bounded ==> *counter <= sheets@.len(),
            !bounded ==> convert_children_spec(nodes, hs@, st0, fuel as nat).1.counter
                <= usize::MAX,
            (nodes_view(out@), state_of(sheets@, *counter)) == convert_children_spec(
                dom_nodes(*dom),
                hs@.take(k as int),
                st0,
                fuel as nat,
            ),
        decreases hs@.len() - k,
    {
        proof {
            assert(hs@.take(k + 1).drop_last() =~= hs@.take(k as int));
            assert(hs@.take(k + 1).last() == hs@[k as int]);
            if !bounded {
                lemma_children_rules(nodes, hs@.take(k + 1), st0, fuel as nat);
                lemma_children_rules(nodes, hs@, st0, fuel as nat);
                lemma_children_styles_prefix(nodes, hs@, fuel as nat, k + 1);
            }
        }
        let n = convert_node(dom, hs[k], sheets, counter, fuel);
        match n {
            Some(node) => {
                proof {
                    lemma_nodes_view_push(out@, node);
                }
                out.push(node);
            },
            None => {},
        }
        k += 1;
    }
    assert(hs@.take(hs@.len() as int) =~= hs@);
    out
}

/// Converts a parsed document into a node tree and the CSS rules generated
/// for its `style` attributes.
pub fn convert_document(dom: &tl::VDom<'_>) -> (r: (Node, Vec<String>))
    ensures
        (r.0@, string_views(r.1@)) == document_spec((dom_nodes(*dom), dom_top(*dom))),
{
    let mut sheets: Vec<String> = Vec::new();
    let mut counter: usize = 0;
    assert(string_views(sheets@) =~= seq![]);
    let top = top_handles(dom);
    let n = node_count(dom);
    let mut kids = convert_children(dom, &top, &mut sheets, &mut counter, n);
    proof {
        crate::node::lemma_nodes_view(kids@);
    }
    if kids.len() == 1 {
        let root = kids.pop().unwrap();
        (root, sheets)
    } else {
        let root = Node::Container(
            ContainerNode {
                tag_name: None,
                class_name: None,
                id: None,
                tw: None,
                children: Some(kids),
            },
        );
        (root, sheets)
    }
}

/// Parse an HTML string into a node tree and collected CSS stylesheets.
///
/// For `style="..."` attributes, generates synthetic class names and CSS rules.
/// For `tw="..."` attributes, passes through to the node's `tw` field.
/// For `class="..."` attributes, sets `class_name` on the node.
/// Fails only on a document longer than `u32::MAX` bytes.
pub fn parse_html(html: &str) -> (r: Result<(Node, Vec<String>), HtmlError>)
    ensures
        r is Ok <==> html.len() <= u32::MAX,
        r matches Ok(res) ==> (res.0@, string_views(res.1@)) == document_spec(parsed_html(html@)),
{
    match parse_document(html) {
        Ok(dom) => Ok(convert_document(&dom)),
        Err(_) => Err(HtmlError::InputTooLarge),
    }
}

// ---------------------------------------------------------------------------
// Laws.
// ---------------------------------------------------------------------------

/// A `style` attribute's value, when it is non-empty and so gets a class.
pub open spec fn own_style(nodes: Seq<DomNodeView>, h: u32) -> Seq<Seq<char>> {
    match attr_value(nodes, h, "style"@) {
        Some(s) => if s.len() > 0 {
            seq![s]
        } else {
            seq![]
        },
        None => seq![],
    }
}

/// The non-empty `style` values of the elements that converting `h` visits,
/// in document (pre-)order: the element's own, then those below it (nothing
/// below an `img`).
pub open spec fn node_styles(nodes: Seq<DomNodeView>, h: u32, fuel: nat) -> Seq<Seq<char>>
    decreases fuel, 0nat,
{
    if fuel == 0 {
        seq![]
    } else {
        match node_at_spec(nodes, h) {
            Some(DomNodeView::Tag { name, children, .. }) => if lowercase(name) == "img"@ {
                own_style(nodes, h)
            } else {
                own_style(nodes, h) + children_styles(nodes, children, (fuel - 1) as nat)
            },
            _ => seq![],
        }
    }
}

/// The non-empty `style` values met while converting the handles `hs`, in
/// document order.
pub open spec fn children_styles(nodes: Seq<DomNodeView>, hs: Seq<u32>, fuel: nat) -> Seq<
    Seq<char>,
>
    decreases fuel, hs.len() + 1,
{
    if hs.len() == 0 {
        seq![]
    } else {
        children_styles(nodes, hs.drop_last(), fuel) + node_styles(nodes, hs.last(), fuel)
    }
}

/// The rules for `styles` when the first gets the class `_s{first}`: the
/// `j`-th is `._s{first + j} { styles[j] }`.
pub open spec fn rules_from(first: nat, styles: Seq<Seq<char>>) -> Seq<Seq<char>> {
    Seq::new(styles.len(), |j: int| style_rule(generated_class((first + j) as nat), styles[j]))
}

/// The state after the rules for `styles` are added to `st`.
pub open spec fn with_rules(st: SheetState, styles: Seq<Seq<char>>) -> SheetState {
    SheetState { sheets: st.sheets + rules_from(st.counter, styles), counter: st.counter + styles.len() }
}

proof fn lemma_with_rules_concat(st: SheetState, a: Seq<Seq<char>>, b: Seq<Seq<char>>)
    ensures
        with_rules(with_rules(st, a), b) == with_rules(st, a + b),
{
    let lhs = with_rules(with_rules(st, a), b);
    let rhs = with_rules(st, a + b);
    assert(lhs.sheets =~= rhs.sheets);
}

proof fn lemma_style_effect_rules(nodes: Seq<DomNodeView>, h: u32, st: SheetState)
    ensures
        style_effect(attr_value(nodes, h, "style"@), st).1 == with_rules(st, own_style(nodes, h)),
{
    let r = with_rules(st, own_style(nodes, h));
    assert(r.sheets =~= style_effect(attr_value(nodes, h, "style"@), st).1.sheets);
}

/// Converting a node adds, for each non-empty `style` value met in document
/// order, the next generated class's rule, and counts one class for each.
pub proof fn lemma_node_rules(nodes: Seq<DomNodeView>, h: u32, st: SheetState, fuel: nat)
    ensures
        convert_node_spec(nodes, h, st, fuel).1 == with_rules(st, node_styles(nodes, h, fuel)),
    decreases fuel, 0nat,
{
    assert(with_rules(st, seq![]).sheets =~= st.sheets);
    if fuel > 0 {
        match node_at_spec(nodes, h) {
            Some(DomNodeView::Tag { name, children, .. }) => {
                lemma_style_effect_rules(nodes, h, st);
                let st1 = style_effect(attr_value(nodes, h, "style"@), st).1;
                if lowercase(name) != "img"@ {
                    lemma_children_rules(nodes, children, st1, (fuel - 1) as nat);
                    lemma_with_rules_concat(
                        st,
                        own_style(nodes, h),
                        children_styles(nodes, children, (fuel - 1) as nat),
                    );
                }
            },
            _ => {},
        }
    }
}

/// Converting a list of nodes adds the rules of their `style` values in
/// document order.
pub proof fn lemma_children_rules(nodes: Seq<DomNodeView>, hs: Seq<u32>, st: SheetState, fuel: nat)
    ensures
        convert_children_spec(nodes, hs, st, fuel).1 == with_rules(
            st,
            children_styles(nodes, hs, fuel),
        ),
    decreases fuel, hs.len() + 1,
{
    assert(with_rules(st, seq![]).sheets =~= st.sheets);
    if hs.len() > 0 {
        lemma_children_rules(nodes, hs.drop_last(), st, fuel);
        let st1 = convert_children_spec(nodes, hs.drop_last(), st, fuel).1;
        lemma_node_rules(nodes, hs.last(), st1, fuel);
        lemma_with_rules_concat(
            st,
            children_styles(nodes, hs.drop_last(), fuel),
            node_styles(nodes, hs.last(), fuel),
        );
    }
}

/// The handles of a prefix meet no more `style` values than all of them.
proof fn lemma_children_styles_prefix(nodes: Seq<DomNodeView>, hs: Seq<u32>, fuel: nat, i: int)
    requires
        0 <= i <= hs.len(),
    ensures
        children_styles(nodes, hs.take(i), fuel).len() <= children_styles(nodes, hs, fuel).len(),
    decreases hs.len(),
{
    if i == hs.len() {
        assert(hs.take(i) =~= hs);
    } else {
        assert(hs.take(i) =~= hs.drop_last().take(i));
        lemma_children_styles_prefix(nodes, hs.drop_last(), fuel, i);
    }
}

/// The `class_name` of a node.
pub open spec fn class_of(n: NodeView) -> Option<Seq<char>> {
    match n {
        NodeView::Container { class_name, .. } => class_name,
        NodeView::Image { class_name, .. } => class_name,
        NodeView::Text { class_name, .. } => class_name,
    }
}

/// An element with a non-empty `style` gets the class `_s{n}`, where `n` is
/// the count of classes generated before it (joined after its own `class`
/// attribute), and the elements below it start counting from `n + 1`.
pub proof fn lemma_styled_element_class(nodes: Seq<DomNodeView>, h: u32, st: SheetState, fuel: nat)
    requires
        fuel > 0,
        node_at_spec(nodes, h) is Some,
        node_at_spec(nodes, h).unwrap() is Tag,
        attr_value(nodes, h, "style"@) matches Some(s) && s.len() > 0,
    ensures
        ({
            let n = convert_node_spec(nodes, h, st, fuel).0;
            &&& n is Some
            &&& class_of(n.unwrap()) == merge_class(
                attr_value(nodes, h, "class"@),
                Some(generated_class(st.counter)),
            )
            &&& style_effect(attr_value(nodes, h, "style"@), st).1.counter == st.counter + 1
        }),
{
}

/// The style sheets of a document are the rules `._s{j} { S_j }` for the
/// non-empty `style` values `S_0`, `S_1`, ... of its elements in document
/// order, one per generated class.
pub proof fn lemma_document_sheets(doc: (Seq<DomNodeView>, Seq<u32>))
    ensures
        document_spec(doc).1 == rules_from(0, children_styles(doc.0, doc.1, doc.0.len())),
{
    let st0 = SheetState { sheets: seq![], counter: 0 };
    lemma_children_rules(doc.0, doc.1, st0, doc.0.len());
    assert(seq![] + rules_from(0, children_styles(doc.0, doc.1, doc.0.len())) =~= rules_from(
        0,
        children_styles(doc.0, doc.1, doc.0.len()),
    ));
}

/// The elements with a non-empty `style` that converting `h` meets, in
/// document (pre-)order, each as the arguments it is converted with: its
/// handle, the fuel left, and the state before it.
pub open spec fn styled_visits(nodes: Seq<DomNodeView>, h: u32, st: SheetState, fuel: nat) -> Seq<
    (u32, nat, SheetState),
>
    decreases fuel, 0nat,
{
    if fuel == 0 {
        seq![]
    } else {
        match node_at_spec(nodes, h) {
            Some(DomNodeView::Tag { name, children, .. }) => {
                let own = if own_style(nodes, h).len() > 0 {
                    seq![(h, fuel, st)]
                } else {
                    seq![]
                };
                if lowercase(name) == "img"@ {
                    own
                } else {
                    own + children_visits(
                        nodes,
                        children,
                        style_effect(attr_value(nodes, h, "style"@), st).1,
                        (fuel - 1) as nat,
                    )
                }
            },
            _ => seq![],
        }
    }
}

/// The styled elements that converting the handles `hs` meets, in document
/// order, with the arguments each is converted with.
pub open spec fn children_visits(
    nodes: Seq<DomNodeView>,
    hs: Seq<u32>,
    st: SheetState,
    fuel: nat,
) -> Seq<(u32, nat, SheetState)>
    decreases fuel, hs.len() + 1,
{
    if hs.len() == 0 {
        seq![]
    } else {
        children_visits(nodes, hs.drop_last(), st, fuel) + styled_visits(
            nodes,
            hs.last(),
            convert_children_spec(nodes, hs.drop_last(), st, fuel).1,
            fuel,
        )
    }
}

/// The visit `v` is of a tag whose `style` is the non-empty `s`, converted
/// with fuel left and the class counter at `n`.
pub open spec fn styled_visit(
    nodes: Seq<DomNodeView>,
    v: (u32, nat, SheetState),
    n: nat,
    s: Seq<char>,
) -> bool {
    &&& v.1 > 0
    &&& v.2.counter == n
    &&& node_at_spec(nodes, v.0) is Some
    &&& node_at_spec(nodes, v.0).unwrap() is Tag
    &&& attr_value(nodes, v.0, "style"@) == Some(s)
    &&& s.len() > 0
}

proof fn lemma_node_visits(nodes: Seq<DomNodeView>, h: u32, st: SheetState, fuel: nat)
    ensures
        styled_visits(nodes, h, st, fuel).len() == node_styles(nodes, h, fuel).len(),
        forall|j: int|
            0 <= j < styled_visits(nodes, h, st, fuel).len() ==> styled_visit(
                nodes,
                #[trigger] styled_visits(nodes, h, st, fuel)[j],
                st.counter + j as nat,
                node_styles(nodes, h, fuel)[j],
            ),
    decreases fuel, 0nat,
{
    if fuel > 0 {
        match node_at_spec(nodes, h) {
            Some(DomNodeView::Tag { name, children, .. }) => {
                lemma_style_effect_rules(nodes, h, st);
                let st1 = style_effect(attr_value(nodes, h, "style"@), st).1;
                let own_s = own_style(nodes, h);
                let own_v: Seq<(u32, nat, SheetState)> = if own_s.len() > 0 {
                    seq![(h, fuel, st)]
                } else {
                    seq![]
                };
                assert(own_v.len() == own_s.len());
                assert forall|j: int| 0 <= j < own_v.len() implies styled_visit(
                    nodes,
                    own_v[j],
                    st.counter + j as nat,
                    own_s[j],
                ) by {}
                if lowercase(name) != "img"@ {
                    let fk = (fuel - 1) as nat;
                    lemma_children_visits(nodes, children, st1, fk);
                    let kid_v = children_visits(nodes, children, st1, fk);
                    let kid_s = children_styles(nodes, children, fk);
                    let all_v = styled_visits(nodes, h, st, fuel);
                    let all_s = node_styles(nodes, h, fuel);
                    assert(all_v == own_v + kid_v);
                    assert(all_s == own_s + kid_s);
                    assert forall|j: int| 0 <= j < all_v.len() implies styled_visit(
                        nodes,
                        #[trigger] all_v[j],
                        st.counter + j as nat,
                        all_s[j],
                    ) by {
                        if j >= own_v.len() {
                            let k = j - own_v.len();
                            assert(all_v[j] == kid_v[k]);
                            assert(all_s[j] == kid_s[k]);
                            assert(styled_visit(nodes, kid_v[k], st1.counter + k as nat, kid_s[k]));
                        } else {
                            assert(all_v[j] == own_v[j]);
                            assert(all_s[j] == own_s[j]);
                        }
                    }
                }
            },
            _ => {},
        }
    }
}

proof fn lemma_children_visits(nodes: Seq<DomNodeView>, hs: Seq<u32>, st: SheetState, fuel: nat)
    ensures
        children_visits(nodes, hs, st, fuel).len() == children_styles(nodes, hs, fuel).len(),
        forall|j: int|
            0 <= j < children_visits(nodes, hs, st, fuel).len() ==> styled_visit(
                nodes,
                #[trigger] children_visits(nodes, hs, st, fuel)[j],
                st.counter + j as nat,
                children_styles(nodes, hs, fuel)[j],
            ),
    decreases fuel, hs.len() + 1,
{
    if hs.len() > 0 {
        lemma_children_visits(nodes, hs.drop_last(), st, fuel);
        lemma_children_rules(nodes, hs.drop_last(), st, fuel);
        let st1 = convert_children_spec(nodes, hs.drop_last(), st, fuel).1;
        lemma_node_visits(nodes, hs.last(), st1, fuel);
        let pre_v = children_visits(nodes, hs.drop_last(), st, fuel);
        let pre_s = children_styles(nodes, hs.drop_last(), fuel);
        let last_v = styled_visits(nodes, hs.last(), st1, fuel);
        let last_s = node_styles(nodes, hs.last(), fuel);
        let all_v = children_visits(nodes, hs, st, fuel);
        let all_s = children_styles(nodes, hs, fuel);
        assert(all_v == pre_v + last_v);
        assert(all_s == pre_s + last_s);
        assert forall|j: int| 0 <= j < all_v.len() implies styled_visit(
            nodes,
            #[trigger] all_v[j],
            st.counter + j as nat,
            all_s[j],
        ) by {
            if j >= pre_v.len() {
                let k = j - pre_v.len();
                assert(all_v[j] == last_v[k]);
                assert(all_s[j] == last_s[k]);
                assert(styled_visit(nodes, last_v[k], st1.counter + k as nat, last_s[k]));
            } else {
                assert(all_v[j] == pre_v[j]);
                assert(all_s[j] == pre_s[j]);
            }
        }
    }
}

/// The node made of a styled visit carries the generated class of its
/// counter, after its own `class` attribute if it has one.
pub open spec fn visit_has_class(nodes: Seq<DomNodeView>, v: (u32, nat, SheetState), n: nat) -> bool {
    let made = convert_node_spec(nodes, v.0, v.2, v.1).0;
    &&& made is Some
    &&& class_of(made.unwrap()) == merge_class(
        attr_value(nodes, v.0, "class"@),
        Some(generated_class(n)),
    )
}

/// Class numbering in document order: the `j`-th element with a non-empty
/// `style` that converting `h` from the state `st` meets has the style
/// `node_styles[j]`, is converted with the class counter at
/// `st.counter + j`, and the node made of it carries the class
/// `_s{st.counter + j}` (after its own `class` attribute, if any); its rule is
/// the `j`-th one added (see `lemma_node_rules`).
pub proof fn lemma_node_class_numbering(nodes: Seq<DomNodeView>, h: u32, st: SheetState, fuel: nat)
    ensures
        styled_visits(nodes, h, st, fuel).len() == node_styles(nodes, h, fuel).len(),
        forall|j: int|
            0 <= j < styled_visits(nodes, h, st, fuel).len() ==> {
                let v = #[trigger] styled_visits(nodes, h, st, fuel)[j];
                &&& attr_value(nodes, v.0, "style"@) == Some(node_styles(nodes, h, fuel)[j])
                &&& v.2.counter == st.counter + j
                &&& visit_has_class(nodes, v, st.counter + j as nat)
            },
{
    lemma_node_visits(nodes, h, st, fuel);
    assert forall|j: int| 0 <= j < styled_visits(nodes, h, st, fuel).len() implies visit_has_class(
        nodes,
        #[trigger] styled_visits(nodes, h, st, fuel)[j],
        st.counter + j as nat,
    ) by {
        let v = styled_visits(nodes, h, st, fuel)[j];
        lemma_styled_element_class(nodes, v.0, v.2, v.1);
    }
}

/// Class numbering in a document: the `j`-th element with a non-empty
/// `style`, in document order, has the style `S_j`, and the node made of it
/// carries the class `_s{j}` (after its own `class` attribute, if any), whose
/// rule `._s{j} { S_j }` is the `j`-th style sheet.
pub proof fn lemma_document_class_numbering(doc: (Seq<DomNodeView>, Seq<u32>))
    ensures
        ({
            let st0 = SheetState { sheets: seq![], counter: 0 };
            let vs = children_visits(doc.0, doc.1, st0, doc.0.len());
            let styles = children_styles(doc.0, doc.1, doc.0.len());
            &&& vs.len() == styles.len()
            &&& document_spec(doc).1 == rules_from(0, styles)
            &&& forall|j: int|
                0 <= j < vs.len() ==> {
                    &&& attr_value(doc.0, (#[trigger] vs[j]).0, "style"@) == Some(styles[j])
                    &&& document_spec(doc).1[j] == style_rule(generated_class(j as nat), styles[j])
                    &&& visit_has_class(doc.0, vs[j], j as nat)
                }
        }),
{
    let st0 = SheetState { sheets: seq![], counter: 0 };
    let vs = children_visits(doc.0, doc.1, st0, doc.0.len());
    lemma_children_visits(doc.0, doc.1, st0, doc.0.len());
    lemma_document_sheets(doc);
    assert forall|j: int| 0 <= j < vs.len() implies visit_has_class(
        doc.0,
        #[trigger] vs[j],
        j as nat,
    ) by {
        let v = vs[j];
        lemma_styled_element_class(doc.0, v.0, v.2, v.1);
    }
}

/// The class name of an element's node, for every element and every state:
/// its `class` attribute `u` is kept; a non-empty `style` adds the class
/// `_s{n}` for the current counter `n`, after `u` and a space when there is a
/// `u`; with neither, the node has no class name.
pub proof fn lemma_element_class_name(nodes: Seq<DomNodeView>, h: u32, st: SheetState, fuel: nat)
    requires
        fuel > 0,
        node_at_spec(nodes, h) is Some,
        node_at_spec(nodes, h).unwrap() is Tag,
    ensures
        ({
            let made = convert_node_spec(nodes, h, st, fuel).0;
            let user = attr_value(nodes, h, "class"@);
            let styled = attr_value(nodes, h, "style"@) matches Some(s) && s.len() > 0;
            let gen = "_s"@ + decimal(st.counter);
            &&& made is Some
            &&& user matches Some(u) ==> class_of(made.unwrap()) == Some(
                if styled {
                    u + " "@ + gen
                } else {
                    u
                },
            )
            &&& (user is None && styled) ==> class_of(made.unwrap()) == Some(gen)
            &&& (user is None && !styled) ==> class_of(made.unwrap()) is None
        }),
{
}

} // verus!

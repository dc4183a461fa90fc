//! The node tree that the HTML front end builds and the renderer draws.
use vstd::prelude::*;

verus! {

/// A node with children.
#[derive(Debug, PartialEq, Eq)]
pub struct ContainerNode {
    pub tag_name: Option<String>,
    pub class_name: Option<String>,
    pub id: Option<String>,
    /// The raw value of the `tw` attribute (Tailwind classes).
    pub tw: Option<String>,
    pub children: Option<Vec<Node>>,
}

/// An image.
#[derive(Debug, PartialEq, Eq)]
pub struct ImageNode {
    pub tag_name: Option<String>,
    pub class_name: Option<String>,
    pub id: Option<String>,
    pub src: String,
    /// The raw value of the `width` attribute.
    pub width: Option<String>,
    /// The raw value of the `height` attribute.
    pub height: Option<String>,
    pub tw: Option<String>,
}

/// A run of text.
#[derive(Debug, PartialEq, Eq)]
pub struct TextNode {
    pub tag_name: Option<String>,
    pub class_name: Option<String>,
    pub id: Option<String>,
    pub text: String,
    pub tw: Option<String>,
}

/// A node of the tree.
#[derive(Debug, PartialEq, Eq)]
pub enum Node {
    Container(ContainerNode),
    Image(ImageNode),
    Text(TextNode),
}

/// Model of an optional text.
pub open spec fn opt_view(o: Option<String>) -> Option<Seq<char>> {
    match o {
        Some(s) => Some(s@),
        None => None,
    }
}

/// Model of a node.
pub enum NodeView {
    Container {
        tag_name: Option<Seq<char>>,
        class_name: Option<Seq<char>>,
        id: Option<Seq<char>>,
        tw: Option<Seq<char>>,
        children: Option<Seq<NodeView>>,
    },
    Image {
        tag_name: Option<Seq<char>>,
        class_name: Option<Seq<char>>,
        id: Option<Seq<char>>,
        src: Seq<char>,
        width: Option<Seq<char>>,
        height: Option<Seq<char>>,
        tw: Option<Seq<char>>,
    },
    Text {
        tag_name: Option<Seq<char>>,
        class_name: Option<Seq<char>>,
        id: Option<Seq<char>>,
        text: Seq<char>,
        tw: Option<Seq<char>>,
    },
}

/// The model of a node.
pub open spec fn node_view(n: Node) -> NodeView
    decreases n,
{
    match n {
        Node::Container(c) => NodeView::Container {
            tag_name: opt_view(c.tag_name),
            class_name: opt_view(c.class_name),
            id: opt_view(c.id),
            tw: opt_view(c.tw),
            children: match c.children {
                Some(v) => Some(nodes_view(v@)),
                None => None,
            },
        },
        Node::Image(i) => NodeView::Image {
            tag_name: opt_view(i.tag_name),
            class_name: opt_view(i.class_name),
            id: opt_view(i.id),
            src: i.src@,
            width: opt_view(i.width),
            height: opt_view(i.height),
            tw: opt_view(i.tw),
        },
        Node::Text(t) => NodeView::Text {
            tag_name: opt_view(t.tag_name),
            class_name: opt_view(t.class_name),
            id: opt_view(t.id),
            text: t.text@,
            tw: opt_view(t.tw),
        },
    }
}

/// The models of a sequence of nodes.
pub open spec fn nodes_view(v: Seq<Node>) -> Seq<NodeView>
    decreases v,
{
    if v.len() == 0 {
        seq![]
    } else {
        nodes_view(v.drop_last()).push(node_view(v.last()))
    }
}

impl View for Node {
    type V = NodeView;

    open spec fn view(&self) -> NodeView {
        node_view(*self)
    }
}

/// `nodes_view` maps each node to its model.
pub proof fn lemma_nodes_view(v: Seq<Node>)
    ensures
        nodes_view(v).len() == v.len(),
        forall|i: int| 0 <= i < v.len() ==> #[trigger] nodes_view(v)[i] == node_view(v[i]),
    decreases v.len(),
{
    if v.len() > 0 {
        lemma_nodes_view(v.drop_last());
        assert forall|i: int| 0 <= i < v.len() implies #[trigger] nodes_view(v)[i] == node_view(
            v[i],
        ) by {
            if i < v.len() - 1 {
                assert(v.drop_last()[i] == v[i]);
            }
        }
    }
}

/// `nodes_view` of a sequence with one more node.
pub proof fn lemma_nodes_view_push(v: Seq<Node>, n: Node)
    ensures
        nodes_view(v.push(n)) == nodes_view(v).push(node_view(n)),
{
    assert(v.push(n).drop_last() =~= v);
}

} // verus!

//! A parsed HTML fragment as plain values: the edges of its tree in the order
//! of a traversal.

use vstd::prelude::*;
use ego_tree::iter::Edge;
use scraper::{ElementRef, Html, Node};

verus! {

/// A node of a parsed fragment, as far as it is read here.
#[derive(Debug, PartialEq, Eq)]
pub enum Markup {
    /// An element, by its tag name.
    Element(String),
    /// A run of text, entities decoded.
    Text(String),
    /// Anything else: the fragment itself, a comment, a doctype.
    Other,
}

/// Where a traversal enters or leaves a node.
#[derive(Debug, PartialEq, Eq)]
pub enum MarkupEdge {
    Open(Markup),
    Close(Markup),
}

/// What a [`Markup`] holds.
pub enum MarkupView {
    Element(Seq<char>),
    Text(Seq<char>),
    Other,
}

/// What a [`MarkupEdge`] holds.
pub enum EdgeView {
    Open(MarkupView),
    Close(MarkupView),
}

impl View for Markup {
    type V = MarkupView;

    open spec fn view(&self) -> MarkupView {
        match *self {
            Markup::Element(name) => MarkupView::Element(name@),
            Markup::Text(t) => MarkupView::Text(t@),
            Markup::Other => MarkupView::Other,
        }
    }
}

impl View for MarkupEdge {
    type V = EdgeView;

    open spec fn view(&self) -> EdgeView {
        match *self {
            MarkupEdge::Open(m) => EdgeView::Open(m@),
            MarkupEdge::Close(m) => EdgeView::Close(m@),
        }
    }
}

/// What a list of edges holds.
pub open spec fn edge_views(v: Seq<MarkupEdge>) -> Seq<EdgeView> {
    v.map_values(|e: MarkupEdge| e@)
}

/// The edges that a traversal of the fragment which `scraper` parses out of
/// an HTML text passes, from the fragment's root on.
pub uninterp spec fn fragment_edges(html: Seq<char>) -> Seq<EdgeView>;

/// The HTML that `scraper` writes for the node whose edge has this place in
/// the traversal of the parsed fragment.
pub uninterp spec fn node_html(html: Seq<char>, place: int) -> Seq<char>;

/// `scraper::Html::parse_fragment` and a traversal of its tree by
/// `ego_tree`'s `traverse`: the edges are fixed by the text.
#[verifier::external_body]
pub(crate) fn parse_edges(html: &str) -> (r: Vec<MarkupEdge>)
    ensures
        edge_views(r@) == fragment_edges(html@),
{
    let markup = |node: &Node| match node {
        Node::Element(element) => Markup::Element(element.name().to_owned()),
        Node::Text(t) => Markup::Text(t.to_string()),
        _ => Markup::Other,
    };
    let edge = |edge| match edge {
        Edge::Open(node) => MarkupEdge::Open(markup(ego_tree::NodeRef::value(&node))),
        Edge::Close(node) => MarkupEdge::Close(markup(ego_tree::NodeRef::value(&node))),
    };
    Html::parse_fragment(html).tree.root().traverse().map(edge).collect()
}

/// `scraper::ElementRef::html` of the elements whose edges have these places
/// in the traversal that [`parse_edges`] makes: each is fixed by the text and
/// the place, and is not empty, since it begins with the element's tag.
#[verifier::external_body]
pub(crate) fn elements_html(html: &str, places: &Vec<usize>) -> (r: Vec<String>)
    requires
        forall|i: int|
            0 <= i < places@.len() ==> #[trigger] places@[i] < fragment_edges(html@).len()
                && fragment_edges(html@)[places@[i] as int] matches EdgeView::Open(
                MarkupView::Element(_),
            ),
    ensures
        r@.len() == places@.len(),
        forall|i: int|
            0 <= i < r@.len() ==> #[trigger] r@[i]@ == node_html(html@, places@[i] as int)
                && r@[i]@.len() > 0,
{
    let fragment = Html::parse_fragment(html);
    let edges: Vec<Edge<Node>> = fragment.tree.root().traverse().collect();
    let element = |place: &usize| match edges[*place] {
        Edge::Open(node) => ElementRef::wrap(node),
        Edge::Close(node) => ElementRef::wrap(node),
    };
    places.iter().map(|place| element(place).unwrap().html()).collect()
}

} // verus!

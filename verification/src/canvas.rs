//! The note graph as the pipeline reads it, and its loading from JSON Canvas text.

use crate::text::views;
use jsoncanvas::color::PresetColor;
use jsoncanvas::node::GenericNodeInfo;
use vstd::multiset::Multiset;
use vstd::prelude::*;

verus! {

/// A colour tag of a node: one of the six presets, or a custom RGBA value.
#[derive(Clone, Copy, Debug, PartialEq, Eq, Structural)]
pub enum NodeColor {
    Red,
    Orange,
    Yellow,
    Green,
    Cyan,
    Purple,
    Custom { r: u8, g: u8, b: u8, a: u8 },
}

/// What a node holds.
#[derive(Clone, Copy, Debug, PartialEq, Eq, Structural)]
pub enum NodeKind {
    Text,
    File,
    Link,
    Group,
}

/// A vertex of the note graph. `text` is empty for every kind but `Text`
/// when the node comes from a parsed document.
#[derive(Clone, Debug)]
pub struct CanvasNode {
    pub id: String,
    pub kind: NodeKind,
    pub text: String,
    pub color: Option<NodeColor>,
}

/// A directed connection between two node identifiers. Neither end has to
/// name a node of the canvas.
#[derive(Clone, Debug)]
pub struct CanvasEdge {
    pub id: String,
    pub from_node: String,
    pub to_node: String,
}

/// A note graph: its nodes and its edges, each in a fixed order.
#[derive(Clone, Debug)]
pub struct Canvas {
    pub nodes: Vec<CanvasNode>,
    pub edges: Vec<CanvasEdge>,
}

/// Mathematical model of a [`CanvasNode`].
pub struct NodeView {
    pub id: Seq<char>,
    pub kind: NodeKind,
    pub text: Seq<char>,
    pub color: Option<NodeColor>,
}

/// Mathematical model of a [`CanvasEdge`].
pub struct EdgeView {
    pub id: Seq<char>,
    pub from_node: Seq<char>,
    pub to_node: Seq<char>,
}

/// Mathematical model of a [`Canvas`].
pub struct CanvasView {
    pub nodes: Seq<NodeView>,
    pub edges: Seq<EdgeView>,
}

impl View for CanvasNode {
    type V = NodeView;

    open spec fn view(&self) -> NodeView {
        NodeView { id: self.id@, kind: self.kind, text: self.text@, color: self.color }
    }
}

impl View for CanvasEdge {
    type V = EdgeView;

    open spec fn view(&self) -> EdgeView {
        EdgeView { id: self.id@, from_node: self.from_node@, to_node: self.to_node@ }
    }
}

impl View for Canvas {
    type V = CanvasView;

    open spec fn view(&self) -> CanvasView {
        CanvasView {
            nodes: self.nodes@.map_values(|n: CanvasNode| n@),
            edges: self.edges@.map_values(|e: CanvasEdge| e@),
        }
    }
}

impl CanvasNode {
    /// A text node.
    pub fn new_text(id: String, text: String, color: Option<NodeColor>) -> (r: CanvasNode)
        ensures
            r@ == (NodeView { id: id@, kind: NodeKind::Text, text: text@, color }),
    {
        CanvasNode { id, kind: NodeKind::Text, text, color }
    }

    /// A node of a kind that carries no text.
    pub fn other(id: String, kind: NodeKind, color: Option<NodeColor>) -> (r: CanvasNode)
        ensures
            r@ == (NodeView { id: id@, kind, text: Seq::empty(), color }),
    {
        CanvasNode { id, kind, text: String::new(), color }
    }
}

impl CanvasEdge {
    /// The edge `id` from `from_node` to `to_node`.
    pub fn new(id: String, from_node: String, to_node: String) -> (r: CanvasEdge)
        ensures
            r@ == (EdgeView { id: id@, from_node: from_node@, to_node: to_node@ }),
    {
        CanvasEdge { id, from_node, to_node }
    }
}

impl Canvas {
    /// A canvas with the given nodes and edges, in the given order.
    pub fn new(nodes: Vec<CanvasNode>, edges: Vec<CanvasEdge>) -> (r: Canvas)
        ensures
            r.nodes == nodes,
            r.edges == edges,
    {
        Canvas { nodes, edges }
    }
}

/// A parsed JSON Canvas document, as the `jsoncanvas` crate holds it.
#[verifier::external_type_specification]
#[verifier::external_body]
pub struct ExJsonCanvas(jsoncanvas::JsonCanvas);

/// The error of the `jsoncanvas` crate.
#[verifier::external_type_specification]
#[verifier::external_body]
pub struct ExJsonCanvasError(jsoncanvas::JsonCanvasError);

/// A colour of a parsed document.
#[verifier::external_type_specification]
#[verifier::external_body]
pub struct ExDocumentColor(jsoncanvas::color::Color);

/// Whether `content` is a JSON Canvas document that the `jsoncanvas`
/// crate accepts.
pub uninterp spec fn is_canvas_text(content: Seq<char>) -> bool;

/// The nodes that the `jsoncanvas` crate reads from `content`, where it
/// accepts it: each with its identifier, kind, text and colour, in no
/// order.
pub uninterp spec fn canvas_nodes(content: Seq<char>) -> Multiset<NodeView>;

/// The edges that the `jsoncanvas` crate reads from `content`, where it
/// accepts it: each with its identifier and its two ends, in no order.
pub uninterp spec fn canvas_edges(content: Seq<char>) -> Multiset<EdgeView>;

/// The nodes that a parsed document holds, in no order.
pub uninterp spec fn held_nodes(document: jsoncanvas::JsonCanvas) -> Multiset<NodeView>;

/// The edges that a parsed document holds, in no order.
pub uninterp spec fn held_edges(document: jsoncanvas::JsonCanvas) -> Multiset<EdgeView>;

/// Parses `content` as a JSON Canvas document.
///
/// Wraps the `FromStr` impl of `jsoncanvas::JsonCanvas`, which hands the
/// text to `serde_json::from_str`. Whether it succeeds, and which nodes
/// and edges the document then holds, depends on the text alone: that is
/// all the contract claims, through [`is_canvas_text`], [`canvas_nodes`]
/// and [`canvas_edges`].
#[verifier::external_body]
fn parse_document(content: &str) -> (r: Result<
    jsoncanvas::JsonCanvas,
    jsoncanvas::JsonCanvasError,
>)
    ensures
        r is Ok == is_canvas_text(content@),
        r matches Ok(document) ==> held_nodes(document) == canvas_nodes(content@) && held_edges(
            document,
        ) == canvas_edges(content@),
{
    content.parse()
}

/// The words of a parse error.
///
/// Wraps the `Display` impl of `jsoncanvas::JsonCanvasError`.
#[verifier::external_body]
fn error_text(error: &jsoncanvas::JsonCanvasError) -> String {
    error.to_string()
}

/// A colour of a document as a colour tag.
///
/// Maps each variant of `jsoncanvas::color::Color` and of its
/// `PresetColor` to the variant of the same name, and a `HexColor` to
/// its four components.
#[verifier::external_body]
fn color_tag(color: &jsoncanvas::color::Color) -> NodeColor {
    match color {
        jsoncanvas::color::Color::Preset(PresetColor::Red) => NodeColor::Red,
        jsoncanvas::color::Color::Preset(PresetColor::Orange) => NodeColor::Orange,
        jsoncanvas::color::Color::Preset(PresetColor::Yellow) => NodeColor::Yellow,
        jsoncanvas::color::Color::Preset(PresetColor::Green) => NodeColor::Green,
        jsoncanvas::color::Color::Preset(PresetColor::Cyan) => NodeColor::Cyan,
        jsoncanvas::color::Color::Preset(PresetColor::Purple) => NodeColor::Purple,
        jsoncanvas::color::Color::Color(hex) => NodeColor::Custom {
            r: hex.r,
            g: hex.g,
            b: hex.b,
            a: hex.a,
        },
    }
}

/// The nodes of a document as nodes of a canvas, in the order in which
/// its map hands them out.
///
/// Wraps `JsonCanvas::get_nodes` and, for each node, `GenericNodeInfo::id`,
/// `GenericNodeInfo::color` and `TextNode::text`. The order is that of a
/// hash map and differs from run to run; what comes out is what the
/// document holds, which [`held_nodes`] names.
#[verifier::external_body]
fn document_nodes(document: &jsoncanvas::JsonCanvas) -> (r: Vec<CanvasNode>)
    ensures
        views(r@).to_multiset() == held_nodes(*document),
{
    document.get_nodes().values().map(|node| {
        let id = node.id().as_str().to_string();
        let color = node.color().as_ref().map(color_tag);
        match node {
            jsoncanvas::Node::Text(text) => {
                CanvasNode::new_text(id, text.text().to_string(), color)
            },
            jsoncanvas::Node::File(_) => CanvasNode::other(id, NodeKind::File, color),
            jsoncanvas::Node::Link(_) => CanvasNode::other(id, NodeKind::Link, color),
            jsoncanvas::Node::Group(_) => CanvasNode::other(id, NodeKind::Group, color),
        }
    }).collect()
}

/// The edges of a document as edges of a canvas, in the order in which
/// its map hands them out.
///
/// Wraps `JsonCanvas::get_edges` and, for each edge, `Edge::id`,
/// `Edge::from_node` and `Edge::to_node`. The order is that of a hash
/// map and differs from run to run; what comes out is what the document
/// holds, which [`held_edges`] names.
#[verifier::external_body]
fn document_edges(document: &jsoncanvas::JsonCanvas) -> (r: Vec<CanvasEdge>)
    ensures
        views(r@).to_multiset() == held_edges(*document),
{
    document.get_edges().values().map(|edge| {
        let id = edge.id().as_str().to_string();
        let from_node = edge.from_node().as_str().to_string();
        let to_node = edge.to_node().as_str().to_string();
        CanvasEdge::new(id, from_node, to_node)
    }).collect()
}

/// The canvas that a JSON Canvas text describes, or the words of the
/// parser where it does not describe one. The canvas holds the nodes and
/// the edges that the parser reads from the text, each as often as the
/// parser has it; their order is not fixed. A node that is no text node
/// has the empty text.
pub fn load_canvas(content: &str) -> (r: Result<Canvas, String>)
    ensures
        r is Ok == is_canvas_text(content@),
        r matches Ok(canvas) ==> canvas@.nodes.to_multiset() == canvas_nodes(content@)
            && canvas@.edges.to_multiset() == canvas_edges(content@),
{
    match parse_document(content) {
        Err(error) => Err(error_text(&error)),
        Ok(document) => {
            let nodes = document_nodes(&document);
            let edges = document_edges(&document);
            Ok(Canvas { nodes, edges })
        },
    }
}

} // verus!

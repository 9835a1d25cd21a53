//! Selection of the nodes to syndicate, and the items made of them.

use crate::canvas::{Canvas, CanvasNode, CanvasView, NodeColor, EdgeView, NodeKind, NodeView};
use crate::graph::{
    incoming, outgoing, Adjacency, AdjacencyIndex, AdjacencyView, InAdjacencies, OutAdjacencies,
};
use crate::text::views;
use vstd::prelude::*;

verus! {

/// A publishable item: the node it was made of, the node's text, and the
/// identifiers of the node's neighbours in the order of its adjacency lists.
#[derive(Debug)]
pub struct SyndicationFormat {
    pub id: String,
    pub text: String,
    pub in_neighbor_ids: Vec<String>,
    pub out_neighbor_ids: Vec<String>,
}

/// Mathematical model of a [`SyndicationFormat`].
pub struct SyndicationView {
    pub id: Seq<char>,
    pub text: Seq<char>,
    pub in_neighbor_ids: Seq<Seq<char>>,
    pub out_neighbor_ids: Seq<Seq<char>>,
}

impl View for SyndicationFormat {
    type V = SyndicationView;

    open spec fn view(&self) -> SyndicationView {
        SyndicationView {
            id: self.id@,
            text: self.text@,
            in_neighbor_ids: views(self.in_neighbor_ids@),
            out_neighbor_ids: views(self.out_neighbor_ids@),
        }
    }
}

impl SyndicationFormat {
    /// A copy of this item.
    pub fn duplicate(&self) -> (r: SyndicationFormat)
        ensures
            r@ == self@,
    {
        SyndicationFormat {
            id: self.id.clone(),
            text: self.text.clone(),
            in_neighbor_ids: copy_texts(&self.in_neighbor_ids),
            out_neighbor_ids: copy_texts(&self.out_neighbor_ids),
        }
    }
}

/// A copy of `texts`.
pub fn copy_texts(texts: &Vec<String>) -> (r: Vec<String>)
    ensures
        views(r@) == views(texts@),
{
    let mut out: Vec<String> = Vec::new();
    let mut i: usize = 0;
    while i < texts.len()
        invariant
            i <= texts.len(),
            views(out@) == views(texts@).take(i as int),
        decreases texts.len() - i,
    {
        out.push(texts[i].clone());
        assert(views(out@) == views(texts@).take(i as int).push(texts@[i as int]@));
        i += 1;
    }
    assert(views(texts@).take(texts@.len() as int) == views(texts@));
    out
}

/// The view of an optional item.
pub open spec fn view_of(item: Option<SyndicationFormat>) -> Option<SyndicationView> {
    match item {
        Some(i) => Some(i@),
        None => None,
    }
}

/// The colour that marks a node for syndication.
pub open spec fn marker() -> NodeColor {
    NodeColor::Red
}

/// The default policy's test: a text node with some text and the marker colour.
pub open spec fn default_accepts(node: NodeView) -> bool {
    &&& node.kind == NodeKind::Text
    &&& node.text.len() > 0
    &&& node.color == Some(marker())
}

/// The node identifiers of an adjacency list, order and repetitions kept.
pub open spec fn neighbor_ids(list: Seq<AdjacencyView>) -> Seq<Seq<char>> {
    list.map_values(|a: AdjacencyView| a.node_id)
}

/// The item that the default policy makes of an accepted node.
pub open spec fn default_item(
    node: NodeView,
    out_adjacencies: Seq<AdjacencyView>,
    in_adjacencies: Seq<AdjacencyView>,
) -> SyndicationView {
    SyndicationView {
        id: node.id,
        text: node.text,
        in_neighbor_ids: neighbor_ids(in_adjacencies),
        out_neighbor_ids: neighbor_ids(out_adjacencies),
    }
}

/// What the default policy selects: the item of an accepted node, nothing
/// of any other.
pub open spec fn default_selection(
    node: NodeView,
    out_adjacencies: Seq<AdjacencyView>,
    in_adjacencies: Seq<AdjacencyView>,
) -> Option<SyndicationView> {
    if default_accepts(node) {
        Some(default_item(node, out_adjacencies, in_adjacencies))
    } else {
        None
    }
}

/// The default filter: whether `node` is a text node with non-empty text
/// and the marker colour. The adjacency lists play no part.
pub fn default_node_filter(
    node: &CanvasNode,
    out_adjacencies: &OutAdjacencies,
    in_adjacencies: &InAdjacencies,
) -> (r: bool)
    ensures
        r == default_accepts(node@),
{
    match node.kind {
        NodeKind::Text => {
            if node.text.as_str().is_empty() {
                return false;
            }
        },
        _ => {
            return false;
        },
    }
    match node.color {
        Some(color) => color == NodeColor::Red,
        None => false,
    }
}

fn copy_neighbor_ids(list: &Vec<Adjacency>) -> (r: Vec<String>)
    ensures
        views(r@) == neighbor_ids(views(list@)),
{
    let mut out: Vec<String> = Vec::new();
    let mut i: usize = 0;
    while i < list.len()
        invariant
            i <= list.len(),
            views(out@) == neighbor_ids(views(list@)).take(i as int),
        decreases list.len() - i,
    {
        out.push(list[i].node_id.clone());
        assert(views(out@) == neighbor_ids(views(list@)).take(i as int).push(
            list@[i as int]@.node_id,
        ));
        i += 1;
    }
    assert(neighbor_ids(views(list@)).take(list@.len() as int) == neighbor_ids(views(list@)));
    out
}

/// The default mapper: the item of `node`, with the neighbour identifiers
/// copied from the two adjacency lists.
pub fn default_node_to_syndication_format_mapper(
    node: &CanvasNode,
    out_adjacencies: &OutAdjacencies,
    in_adjacencies: &InAdjacencies,
) -> (r: SyndicationFormat)
    ensures
        r@ == default_item(node@, out_adjacencies@, in_adjacencies@),
{
    SyndicationFormat {
        id: node.id.clone(),
        text: node.text.clone(),
        in_neighbor_ids: copy_neighbor_ids(&in_adjacencies.0),
        out_neighbor_ids: copy_neighbor_ids(&out_adjacencies.0),
    }
}

/// The default policy: the item that
/// [`default_node_to_syndication_format_mapper`] makes of `node` where
/// [`default_node_filter`] accepts it, nothing else.
pub fn default_process_node(
    node: &CanvasNode,
    out_adjacencies: &OutAdjacencies,
    in_adjacencies: &InAdjacencies,
) -> (r: Option<SyndicationFormat>)
    ensures
        view_of(r) == default_selection(node@, out_adjacencies@, in_adjacencies@),
{
    if default_node_filter(node, out_adjacencies, in_adjacencies) {
        Some(default_node_to_syndication_format_mapper(node, out_adjacencies, in_adjacencies))
    } else {
        None
    }
}

/// Whether `choice` is an answer that the policy `select` can give for
/// `node` when it is handed the adjacency lists that `edges` give to the
/// node's identifier.
pub open spec fn selects<F>(
    select: F,
    node: CanvasNode,
    edges: Seq<EdgeView>,
    choice: Option<SyndicationFormat>,
) -> bool where F: Fn(&CanvasNode, &OutAdjacencies, &InAdjacencies) -> Option<SyndicationFormat> {
    exists|out_adjacencies: OutAdjacencies, in_adjacencies: InAdjacencies|
        out_adjacencies@ == outgoing(edges, node.id@) && in_adjacencies@ == incoming(
            edges,
            node.id@,
        ) && #[trigger] select.ensures((&node, &out_adjacencies, &in_adjacencies), choice)
}

/// Whether `items` is what the policy `select` can make of `nodes`: one
/// item for each node that it selects, in the order of the nodes, and
/// none for a node that it rejects.
pub open spec fn selected_by<F>(
    select: F,
    nodes: Seq<CanvasNode>,
    edges: Seq<EdgeView>,
    items: Seq<SyndicationFormat>,
) -> bool where F: Fn(&CanvasNode, &OutAdjacencies, &InAdjacencies) -> Option<SyndicationFormat>
    decreases nodes.len(),
{
    if nodes.len() == 0 {
        items.len() == 0
    } else {
        ||| selects(select, nodes.last(), edges, None) && selected_by(
            select,
            nodes.drop_last(),
            edges,
            items,
        )
        ||| items.len() > 0 && selects(select, nodes.last(), edges, Some(items.last()))
            && selected_by(select, nodes.drop_last(), edges, items.drop_last())
    }
}

/// What the default policy makes of one node of a canvas with the given
/// edges.
pub open spec fn default_selection_in(edges: Seq<EdgeView>) -> spec_fn(NodeView) -> Option<
    SyndicationView,
> {
    |n: NodeView| default_selection(n, outgoing(edges, n.id), incoming(edges, n.id))
}

/// The items that the default policy makes of a canvas: one for each
/// node it accepts, in the order of the nodes, each with the neighbour
/// lists that the edges give to its identifier.
pub open spec fn default_selected(canvas: CanvasView) -> Seq<SyndicationView> {
    canvas.nodes.filter_map(default_selection_in(canvas.edges))
}

proof fn selected_by_step<F>(
    select: F,
    nodes: Seq<CanvasNode>,
    edges: Seq<EdgeView>,
    items: Seq<SyndicationFormat>,
) where F: Fn(&CanvasNode, &OutAdjacencies, &InAdjacencies) -> Option<SyndicationFormat>
    requires
        selected_by(select, nodes, edges, items),
    ensures
        nodes.len() == 0 ==> items.len() == 0,
        nodes.len() > 0 ==> {
            ||| selects(select, nodes.last(), edges, None) && selected_by(
                select,
                nodes.drop_last(),
                edges,
                items,
            )
            ||| items.len() > 0 && selects(select, nodes.last(), edges, Some(items.last()))
                && selected_by(select, nodes.drop_last(), edges, items.drop_last())
        },
{
}

/// Under the default policy the items are a function of the canvas:
/// whatever it can make of the nodes is what [`default_selected`] gives.
pub proof fn default_policy_is_a_function(
    nodes: Seq<CanvasNode>,
    edges: Seq<EdgeView>,
    items: Seq<SyndicationFormat>,
)
    requires
        selected_by(default_process_node, nodes, edges, items),
    ensures
        views(items) == views(nodes).filter_map(default_selection_in(edges)),
    decreases nodes.len(),
{
    selected_by_step(default_process_node, nodes, edges, items);
    if nodes.len() == 0 {
        assert(views(items) == Seq::<SyndicationView>::empty());
        assert(views(nodes) == Seq::<NodeView>::empty());
    } else {
        let node = nodes.last();
        let rest = nodes.drop_last();
        assert(views(nodes).drop_last() == views(rest));
        assert(views(nodes).last() == node@);
        if selects(default_process_node, node, edges, None) && selected_by(
            default_process_node,
            rest,
            edges,
            items,
        ) {
            default_policy_is_a_function(rest, edges, items);
            assert(views(items) == views(items) + Seq::<SyndicationView>::empty());
        } else {
            default_policy_is_a_function(rest, edges, items.drop_last());
            assert(views(items).drop_last() == views(items.drop_last()));
            assert(views(items) == views(items.drop_last()) + seq![items.last()@]);
        }
    }
}

/// Indexes the edges of `canvas`, asks `select` about every node with
/// the adjacency lists of its identifier, and returns the items of the
/// nodes that it selects, in the order of the nodes.
pub fn to_syndication_format<F>(canvas: &Canvas, select: F) -> (r: Vec<SyndicationFormat>) where
    F: Fn(&CanvasNode, &OutAdjacencies, &InAdjacencies) -> Option<SyndicationFormat>,

    requires
        forall|node: &CanvasNode, out: &OutAdjacencies, inn: &InAdjacencies|
            select.requires((node, out, inn)),
    ensures
        selected_by(select, canvas.nodes@, canvas@.edges, r@),
{
    let index = AdjacencyIndex::build(&canvas.edges);
    let mut items: Vec<SyndicationFormat> = Vec::new();
    let mut i: usize = 0;
    while i < canvas.nodes.len()
        invariant
            i <= canvas.nodes.len(),
            index.wf(),
            forall|node: &CanvasNode, out: &OutAdjacencies, inn: &InAdjacencies|
                select.requires((node, out, inn)),
            forall|node: Seq<char>| #[trigger]
                index.out_list(node) == outgoing(canvas@.edges, node),
            forall|node: Seq<char>| #[trigger] index.in_list(node) == incoming(canvas@.edges, node),
            selected_by(select, canvas.nodes@.take(i as int), canvas@.edges, items@),
        decreases canvas.nodes.len() - i,
    {
        let node = &canvas.nodes[i];
        let out_adjacencies = index.out_adjacencies(node.id.as_str());
        let in_adjacencies = index.in_adjacencies(node.id.as_str());
        let ghost before = items@;
        let choice = select(node, &out_adjacencies, &in_adjacencies);
        proof {
            let upto = canvas.nodes@.take(i + 1);
            assert(upto.drop_last() == canvas.nodes@.take(i as int));
            assert(upto.last() == *node);
            assert(selects(select, upto.last(), canvas@.edges, choice));
        }
        match choice {
            Some(item) => {
                items.push(item);
                assert(items@.drop_last() == before);
                assert(items@.last() == item);
            },
            None => {},
        }
        i += 1;
    }
    assert(canvas.nodes@.take(canvas.nodes@.len() as int) == canvas.nodes@);
    items
}

/// The items that the default policy makes of `canvas`.
pub fn to_default_syndication_format(canvas: &Canvas) -> (r: Vec<SyndicationFormat>)
    ensures
        views(r@) == default_selected(canvas@),
{
    let items = to_syndication_format(canvas, default_process_node);
    proof {
        default_policy_is_a_function(canvas.nodes@, canvas@.edges, items@);
    }
    items
}

/// The default policy is a function of the node and of its two adjacency
/// lists: equal inputs give equal results.
pub proof fn default_selection_is_deterministic(
    node: NodeView,
    out_adjacencies: Seq<AdjacencyView>,
    in_adjacencies: Seq<AdjacencyView>,
    other_node: NodeView,
    other_out: Seq<AdjacencyView>,
    other_in: Seq<AdjacencyView>,
)
    requires
        node == other_node,
        out_adjacencies == other_out,
        in_adjacencies == other_in,
    ensures
        default_selection(node, out_adjacencies, in_adjacencies) == default_selection(
            other_node,
            other_out,
            other_in,
        ),
{
}

/// The default policy rejects every node that is not a text node, has no
/// text, or lacks the marker colour, whatever its adjacency lists hold.
pub proof fn default_policy_rejects(
    node: NodeView,
    out_adjacencies: Seq<AdjacencyView>,
    in_adjacencies: Seq<AdjacencyView>,
)
    requires
        node.kind != NodeKind::Text || node.text.len() == 0 || node.color != Some(marker()),
    ensures
        default_selection(node, out_adjacencies, in_adjacencies) is None,
{
}

} // verus!

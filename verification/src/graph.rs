//! One-hop adjacency over the edges of a canvas.

use crate::canvas::{CanvasEdge, EdgeView};
use crate::text::{filter_map_keeps, views};
use vstd::hash_map::StringHashMap;
use vstd::prelude::*;
use vstd::string::StringExecFns;

verus! {

/// One entry of an adjacency list: the node at the other end of an edge,
/// and the edge that leads there.
#[derive(Debug)]
pub struct Adjacency {
    pub node_id: String,
    pub edge_id: String,
}

/// Mathematical model of an [`Adjacency`].
pub struct AdjacencyView {
    pub node_id: Seq<char>,
    pub edge_id: Seq<char>,
}

impl View for Adjacency {
    type V = AdjacencyView;

    open spec fn view(&self) -> AdjacencyView {
        AdjacencyView { node_id: self.node_id@, edge_id: self.edge_id@ }
    }
}

impl Adjacency {
    /// A copy of this entry.
    pub fn duplicate(&self) -> (r: Adjacency)
        ensures
            r@ == self@,
    {
        Adjacency { node_id: self.node_id.clone(), edge_id: self.edge_id.clone() }
    }
}

/// The edges that leave one node, in the order of the edge list.
#[derive(Debug)]
pub struct OutAdjacencies(pub Vec<Adjacency>);

/// The edges that arrive at one node, in the order of the edge list.
#[derive(Debug)]
pub struct InAdjacencies(pub Vec<Adjacency>);

impl View for OutAdjacencies {
    type V = Seq<AdjacencyView>;

    open spec fn view(&self) -> Seq<AdjacencyView> {
        views(self.0@)
    }
}

impl View for InAdjacencies {
    type V = Seq<AdjacencyView>;

    open spec fn view(&self) -> Seq<AdjacencyView> {
        views(self.0@)
    }
}

/// What an edge contributes to the out-list of `node`: its far end, if it
/// leaves `node`.
pub open spec fn out_entry(node: Seq<char>) -> spec_fn(EdgeView) -> Option<AdjacencyView> {
    |e: EdgeView|
        if e.from_node == node {
            Some(AdjacencyView { node_id: e.to_node, edge_id: e.id })
        } else {
            None
        }
}

/// What an edge contributes to the in-list of `node`: its near end, if it
/// arrives at `node`.
pub open spec fn in_entry(node: Seq<char>) -> spec_fn(EdgeView) -> Option<AdjacencyView> {
    |e: EdgeView|
        if e.to_node == node {
            Some(AdjacencyView { node_id: e.from_node, edge_id: e.id })
        } else {
            None
        }
}

/// The out-list of `node`: one entry for each edge that leaves it, in the
/// order of `edges`, parallel edges kept apart.
pub open spec fn outgoing(edges: Seq<EdgeView>, node: Seq<char>) -> Seq<AdjacencyView> {
    edges.filter_map(out_entry(node))
}

/// The in-list of `node`: one entry for each edge that arrives at it, in
/// the order of `edges`, parallel edges kept apart.
pub open spec fn incoming(edges: Seq<EdgeView>, node: Seq<char>) -> Seq<AdjacencyView> {
    edges.filter_map(in_entry(node))
}

/// Every edge is recorded at both of its ends: its far end stands in the
/// out-list of the node it leaves, its near end in the in-list of the node
/// it arrives at. No node of the canvas has to bear either identifier.
pub proof fn adjacency_records_every_edge(edges: Seq<EdgeView>, k: int)
    requires
        0 <= k < edges.len(),
    ensures
        outgoing(edges, edges[k].from_node).contains(
            AdjacencyView { node_id: edges[k].to_node, edge_id: edges[k].id },
        ),
        incoming(edges, edges[k].to_node).contains(
            AdjacencyView { node_id: edges[k].from_node, edge_id: edges[k].id },
        ),
{
    filter_map_keeps(edges, out_entry(edges[k].from_node), k);
    filter_map_keeps(edges, in_entry(edges[k].to_node), k);
}

/// Nothing but edges is recorded: each entry of an out-list comes from an
/// edge that leaves the node.
pub proof fn outgoing_records_only_edges(
    edges: Seq<EdgeView>,
    node: Seq<char>,
    entry: AdjacencyView,
)
    requires
        outgoing(edges, node).contains(entry),
    ensures
        exists|k: int|
            0 <= k < edges.len() && (#[trigger] edges[k]).from_node == node && edges[k].to_node
                == entry.node_id && edges[k].id == entry.edge_id,
{
    edges.lemma_filter_map_contains(out_entry(node), entry);
    let e = choose|e: EdgeView| #[trigger] edges.contains(e) && out_entry(node)(e) == Some(entry);
    let k = choose|k: int| 0 <= k < edges.len() && edges[k] == e;
    assert(edges[k].from_node == node);
}

/// Nothing but edges is recorded: each entry of an in-list comes from an
/// edge that arrives at the node.
pub proof fn incoming_records_only_edges(
    edges: Seq<EdgeView>,
    node: Seq<char>,
    entry: AdjacencyView,
)
    requires
        incoming(edges, node).contains(entry),
    ensures
        exists|k: int|
            0 <= k < edges.len() && (#[trigger] edges[k]).to_node == node && edges[k].from_node
                == entry.node_id && edges[k].id == entry.edge_id,
{
    edges.lemma_filter_map_contains(in_entry(node), entry);
    let e = choose|e: EdgeView| #[trigger] edges.contains(e) && in_entry(node)(e) == Some(entry);
    let k = choose|k: int| 0 <= k < edges.len() && edges[k] == e;
    assert(edges[k].to_node == node);
}

/// Adjacency lists keyed by node identifier. Each key owns one slot of
/// `lists`; a key that was never appended to has the empty list.
struct ListTable {
    slots: StringHashMap<usize>,
    lists: Vec<Vec<Adjacency>>,
}

impl ListTable {
    spec fn wf(&self) -> bool {
        &&& forall|k: Seq<char>| #[trigger]
            self.slots@.contains_key(k) ==> self.slots@[k] < self.lists.len()
        &&& forall|j: Seq<char>, k: Seq<char>|
            #![trigger self.slots@.contains_key(j), self.slots@.contains_key(k)]
            self.slots@.contains_key(j) && self.slots@.contains_key(k) && self.slots@[j]
                == self.slots@[k] ==> j == k
    }

    spec fn list(&self, node: Seq<char>) -> Seq<AdjacencyView> {
        if self.slots@.contains_key(node) {
            views(self.lists@[self.slots@[node] as int]@)
        } else {
            Seq::empty()
        }
    }

    fn new() -> (r: ListTable)
        ensures
            r.wf(),
            forall|k: Seq<char>| r.list(k) == Seq::<AdjacencyView>::empty(),
    {
        ListTable { slots: StringHashMap::new(), lists: Vec::new() }
    }

    fn append(&mut self, node: &str, entry: Adjacency)
        requires
            old(self).wf(),
        ensures
            final(self).wf(),
            final(self).list(node@) == old(self).list(node@).push(entry@),
            forall|k: Seq<char>| k != node@ ==> final(self).list(k) == old(self).list(k),
    {
        let found = match self.slots.get(node) {
            Some(slot) => Some(*slot),
            None => None,
        };
        match found {
            Some(slot) => {
                let ghost before = self.lists@[slot as int]@;
                self.lists[slot].push(entry);
                assert(views(before.push(entry)) == views(before).push(entry@));
            },
            None => {
                let slot = self.lists.len();
                let mut list: Vec<Adjacency> = Vec::new();
                list.push(entry);
                assert(views(list@) == Seq::<AdjacencyView>::empty().push(entry@));
                self.lists.push(list);
                self.slots.insert(String::from_str(node), slot);
            },
        }
    }

    fn copy_of(&self, node: &str) -> (r: Vec<Adjacency>)
        requires
            self.wf(),
        ensures
            views(r@) == self.list(node@),
    {
        let mut out: Vec<Adjacency> = Vec::new();
        match self.slots.get(node) {
            Some(slot) => {
                let list = &self.lists[*slot];
                let mut i: usize = 0;
                while i < list.len()
                    invariant
                        i <= list.len(),
                        views(out@) == views(list@).take(i as int),
                    decreases list.len() - i,
                {
                    out.push(list[i].duplicate());
                    assert(views(out@) == views(list@).take(i as int).push(list@[i as int]@));
                    i += 1;
                }
                assert(views(list@).take(list@.len() as int) == views(list@));
            },
            None => {},
        }
        out
    }
}

/// The out-list and the in-list of every node identifier that an edge
/// names, built in one pass over the edges.
pub struct AdjacencyIndex {
    out_lists: ListTable,
    in_lists: ListTable,
}

impl AdjacencyIndex {
    /// Whether the index is consistent. Every index that [`AdjacencyIndex::build`]
    /// returns is.
    pub closed spec fn wf(&self) -> bool {
        self.out_lists.wf() && self.in_lists.wf()
    }

    /// The out-list that the index holds for `node`.
    pub closed spec fn out_list(&self, node: Seq<char>) -> Seq<AdjacencyView> {
        self.out_lists.list(node)
    }

    /// The in-list that the index holds for `node`.
    pub closed spec fn in_list(&self, node: Seq<char>) -> Seq<AdjacencyView> {
        self.in_lists.list(node)
    }

    /// Builds the index of `edges`. Only identifiers are read: an edge whose
    /// end names no node is recorded like any other.
    pub fn build(edges: &Vec<CanvasEdge>) -> (r: AdjacencyIndex)
        ensures
            r.wf(),
            forall|node: Seq<char>| #[trigger] r.out_list(node) == outgoing(views(edges@), node),
            forall|node: Seq<char>| #[trigger] r.in_list(node) == incoming(views(edges@), node),
    {
        let mut out_lists = ListTable::new();
        let mut in_lists = ListTable::new();
        let mut i: usize = 0;
        while i < edges.len()
            invariant
                i <= edges.len(),
                out_lists.wf(),
                in_lists.wf(),
                forall|node: Seq<char>| #[trigger]
                    out_lists.list(node) == outgoing(views(edges@).take(i as int), node),
                forall|node: Seq<char>| #[trigger]
                    in_lists.list(node) == incoming(views(edges@).take(i as int), node),
            decreases edges.len() - i,
        {
            let edge = &edges[i];
            proof {
                assert forall|node: Seq<char>|
                    outgoing(views(edges@).take(i + 1), node) == outgoing(
                        views(edges@).take(i as int),
                        node,
                    ) + (match out_entry(node)(edge@) {
                        Some(a) => seq![a],
                        None => Seq::empty(),
                    }) && incoming(views(edges@).take(i + 1), node) == incoming(
                        views(edges@).take(i as int),
                        node,
                    ) + (match in_entry(node)(edge@) {
                        Some(a) => seq![a],
                        None => Seq::empty(),
                    }) by {
                    views(edges@).lemma_filter_map_take_succ(out_entry(node), i as int);
                    views(edges@).lemma_filter_map_take_succ(in_entry(node), i as int);
                }
            }
            let ghost out_before = out_lists;
            let ghost in_before = in_lists;
            out_lists.append(
                edge.from_node.as_str(),
                Adjacency { node_id: edge.to_node.clone(), edge_id: edge.id.clone() },
            );
            in_lists.append(
                edge.to_node.as_str(),
                Adjacency { node_id: edge.from_node.clone(), edge_id: edge.id.clone() },
            );
            proof {
                assert forall|node: Seq<char>| #[trigger]
                    out_lists.list(node) == outgoing(views(edges@).take(i + 1), node) by {
                    assert(out_before.list(node) == outgoing(views(edges@).take(i as int), node));
                    if node == edge.from_node@ {
                        assert(out_lists.list(node) =~= out_before.list(node) + seq![
                            AdjacencyView { node_id: edge.to_node@, edge_id: edge.id@ },
                        ]);
                    } else {
                        assert(out_lists.list(node) =~= out_before.list(node)
                            + Seq::<AdjacencyView>::empty());
                    }
                }
                assert forall|node: Seq<char>| #[trigger]
                    in_lists.list(node) == incoming(views(edges@).take(i + 1), node) by {
                    assert(in_before.list(node) == incoming(views(edges@).take(i as int), node));
                    if node == edge.to_node@ {
                        assert(in_lists.list(node) =~= in_before.list(node) + seq![
                            AdjacencyView { node_id: edge.from_node@, edge_id: edge.id@ },
                        ]);
                    } else {
                        assert(in_lists.list(node) =~= in_before.list(node)
                            + Seq::<AdjacencyView>::empty());
                    }
                }
            }
            i += 1;
        }
        assert(views(edges@).take(edges@.len() as int) == views(edges@));
        AdjacencyIndex { out_lists, in_lists }
    }

    /// The out-list of `node`, copied; empty where no edge leaves `node`.
    pub fn out_adjacencies(&self, node: &str) -> (r: OutAdjacencies)
        requires
            self.wf(),
        ensures
            r@ == self.out_list(node@),
    {
        OutAdjacencies(self.out_lists.copy_of(node))
    }

    /// The in-list of `node`, copied; empty where no edge arrives at `node`.
    pub fn in_adjacencies(&self, node: &str) -> (r: InAdjacencies)
        requires
            self.wf(),
        ensures
            r@ == self.in_list(node@),
    {
        InAdjacencies(self.in_lists.copy_of(node))
    }
}

} // verus!

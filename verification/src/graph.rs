//! The shared topology graph: geolocated nodes keyed by their mesh node
//! number, and edges weighted by reported signal quality.
//!
//! The graph is rebuilt, not diffed, from one device's node table; the
//! rebuilt state is a pure function of that device's state, which makes
//! regeneration idempotent.

use vstd::prelude::*;

use crate::device::MeshDevice;
use crate::device::MeshDeviceView;
use crate::device::MeshNodeView;
use crate::device::MyNodeInfo;
use crate::node_index::node_index_get;
use crate::node_index::node_index_value;
use crate::text::decimal_digits;
use crate::text::u32_to_string;

verus! {

/// Nodes are indexed by `u32` (petgraph's default index type), so the
/// graph can hold at most this many nodes.
pub const MAX_GRAPH_NODES: usize = 0xFFFF_FFFF;

/// One geolocated topology node. Coordinates are scaled integers in units
/// of 1e-7 degrees; altitude is in meters. The name is the canonical
/// decimal rendering of the node number.
#[derive(Clone, PartialEq, Debug)]
pub struct GraphNode {
    pub num: u32,
    pub name: String,
    pub latitude: i32,
    pub longitude: i32,
    pub altitude: i32,
}

/// One undirected edge between two node indexes, weighted by the
/// signal-to-noise ratio of the endpoints' last observed interaction in
/// scaled centi-dB.
#[derive(Clone, Copy, PartialEq, Eq, Structural, Debug)]
pub struct GraphEdge {
    pub u: usize,
    pub v: usize,
    pub snr: i32,
}

#[verifier::ext_equal]
pub struct GraphNodeView {
    pub num: u32,
    pub name: Seq<char>,
    pub latitude: i32,
    pub longitude: i32,
    pub altitude: i32,
}

#[verifier::ext_equal]
pub struct GraphView {
    pub nodes: Seq<GraphNodeView>,
    pub edges: Seq<GraphEdge>,
}

impl View for GraphNode {
    type V = GraphNodeView;

    open spec fn view(&self) -> GraphNodeView {
        GraphNodeView {
            num: self.num,
            name: self.name@,
            latitude: self.latitude,
            longitude: self.longitude,
            altitude: self.altitude,
        }
    }
}

/// The arena of nodes addressed by stable integer indexes, plus the edge
/// list over those indexes.
pub struct Graph {
    pub nodes: Vec<GraphNode>,
    pub edges: Vec<GraphEdge>,
}

impl View for Graph {
    type V = GraphView;

    open spec fn view(&self) -> GraphView {
        GraphView {
            nodes: self.nodes@.map_values(|n: GraphNode| n@),
            edges: self.edges@,
        }
    }
}

/// Index of the first node with the given node number, or -1.
pub open spec fn find_graph_node(nodes: Seq<GraphNodeView>, num: u32) -> int
    decreases nodes.len(),
{
    if nodes.len() == 0 {
        -1
    } else if nodes[0].num == num {
        0
    } else {
        let rest = find_graph_node(nodes.drop_first(), num);
        if rest < 0 {
            -1
        } else {
            rest + 1
        }
    }
}

/// Whether one of the edges joins the two indexes, in either direction.
pub open spec fn edge_connects(e: GraphEdge, a: usize, b: usize) -> bool {
    (e.u == a && e.v == b) || (e.u == b && e.v == a)
}

/// Whether some edge joins the two indexes.
pub open spec fn spec_has_edge(edges: Seq<GraphEdge>, a: usize, b: usize) -> bool {
    exists|i: int| 0 <= i < edges.len() && edge_connects(edges[i], a, b)
}

/// A graph is well formed when every edge joins two distinct existing
/// nodes, node numbers are unique, the node count fits the index type, and
/// every node is named by its number.
pub open spec fn graph_wf(g: GraphView) -> bool {
    &&& forall|i: int| 0 <= i < g.edges.len()
        ==> (#[trigger] g.edges[i]).u < g.nodes.len() && g.edges[i].v < g.nodes.len()
            && g.edges[i].u != g.edges[i].v
    &&& forall|i: int, j: int| 0 <= i < j < g.nodes.len()
        ==> (#[trigger] g.nodes[i]).num != (#[trigger] g.nodes[j]).num
    &&& g.nodes.len() <= MAX_GRAPH_NODES
    &&& forall|i: int| 0 <= i < g.nodes.len()
        ==> (#[trigger] g.nodes[i]).name == decimal_digits(g.nodes[i].num as nat)
}

// ---------------------------------------------------------------------------
// Specification of regeneration
// ---------------------------------------------------------------------------

/// The topology node derived from a node-table entry: its most recent
/// position sample is authoritative.
pub open spec fn node_from_entry(e: MeshNodeView) -> GraphNodeView {
    GraphNodeView {
        num: e.num,
        name: decimal_digits(e.num as nat),
        latitude: e.position_metrics.last().latitude,
        longitude: e.position_metrics.last().longitude,
        altitude: e.position_metrics.last().altitude,
    }
}

/// The node set derived from a node table, in table order: one node per
/// geolocated entry, first occurrence of each node number wins, capped by
/// the index type.
pub open spec fn spec_regen_nodes(table: Seq<MeshNodeView>) -> Seq<GraphNodeView>
    decreases table.len(),
{
    if table.len() == 0 {
        Seq::empty()
    } else {
        let rest = spec_regen_nodes(table.drop_last());
        let e = table.last();
        if e.position_metrics.len() > 0 && find_graph_node(rest, e.num) < 0
            && rest.len() < MAX_GRAPH_NODES {
            rest.push(node_from_entry(e))
        } else {
            rest
        }
    }
}

/// The edge set derived from a node table: one edge between the reporting
/// device's own node and each geolocated node it has heard, weighted by
/// that node's last known signal-to-noise ratio. Entries without a known
/// ratio derive no edge, and no edge is duplicated.
pub open spec fn spec_regen_edges(
    nodes: Seq<GraphNodeView>,
    table: Seq<MeshNodeView>,
    my: Option<MyNodeInfo>,
) -> Seq<GraphEdge>
    decreases table.len(),
{
    if table.len() == 0 || my is None {
        Seq::empty()
    } else {
        let rest = spec_regen_edges(nodes, table.drop_last(), my);
        let e = table.last();
        let ui = find_graph_node(nodes, e.num);
        let vi = find_graph_node(nodes, my->0.my_node_num);
        if e.last_snr is Some && ui >= 0 && vi >= 0 && ui != vi
            && !spec_has_edge(rest, ui as usize, vi as usize) {
            rest.push(GraphEdge { u: ui as usize, v: vi as usize, snr: e.last_snr->0 })
        } else {
            rest
        }
    }
}

/// The whole graph derived from one device's state.
pub open spec fn spec_regenerate(d: MeshDeviceView) -> GraphView {
    let nodes = spec_regen_nodes(d.node_table);
    GraphView { nodes: nodes, edges: spec_regen_edges(nodes, d.node_table, d.my_node_info) }
}

// ---------------------------------------------------------------------------
// Well-formedness of regenerated graphs
// ---------------------------------------------------------------------------

/// `find_graph_node` returns -1 or a valid index holding the number, and
/// -1 only when no node holds it.
pub proof fn lemma_find_graph_node_range(nodes: Seq<GraphNodeView>, num: u32)
    ensures
        -1 <= find_graph_node(nodes, num) < nodes.len(),
        find_graph_node(nodes, num) >= 0
            ==> nodes[find_graph_node(nodes, num)].num == num,
        find_graph_node(nodes, num) == -1
            ==> forall|i: int| 0 <= i < nodes.len() ==> nodes[i].num != num,
    decreases nodes.len(),
{
    if nodes.len() > 0 {
        lemma_find_graph_node_range(nodes.drop_first(), num);
        assert forall|i: int| 0 <= i < nodes.len() && find_graph_node(nodes, num) == -1
            implies nodes[i].num != num by {
            if i > 0 {
                assert(nodes.drop_first()[i - 1] == nodes[i]);
            }
        }
    }
}

/// The node set a regeneration derives is well formed: unique numbers,
/// canonical names, and a length within the index type.
pub proof fn lemma_regen_nodes_wf(table: Seq<MeshNodeView>)
    ensures
        spec_regen_nodes(table).len() <= MAX_GRAPH_NODES,
        forall|i: int, j: int| 0 <= i < j < spec_regen_nodes(table).len()
            ==> (#[trigger] spec_regen_nodes(table)[i]).num
                != (#[trigger] spec_regen_nodes(table)[j]).num,
        forall|i: int| 0 <= i < spec_regen_nodes(table).len()
            ==> (#[trigger] spec_regen_nodes(table)[i]).name
                == decimal_digits(spec_regen_nodes(table)[i].num as nat),
    decreases table.len(),
{
    if table.len() > 0 {
        lemma_regen_nodes_wf(table.drop_last());
        let rest = spec_regen_nodes(table.drop_last());
        let e = table.last();
        let all = spec_regen_nodes(table);
        if e.position_metrics.len() > 0 && find_graph_node(rest, e.num) < 0
            && rest.len() < MAX_GRAPH_NODES {
            lemma_find_graph_node_range(rest, e.num);
            assert(all == rest.push(node_from_entry(e)));
            assert forall|i: int, j: int| 0 <= i < j < all.len()
                implies (#[trigger] all[i]).num != (#[trigger] all[j]).num by {
                if j < rest.len() {
                    assert(all[i] == rest[i] && all[j] == rest[j]);
                } else {
                    assert(all[i] == rest[i]);
                    assert(all[j] == node_from_entry(e));
                    assert(rest[i].num != e.num);
                }
            }
            assert forall|i: int| 0 <= i < all.len()
                implies (#[trigger] all[i]).name == decimal_digits(all[i].num as nat) by {
                if i < rest.len() {
                    assert(all[i] == rest[i]);
                } else {
                    assert(all[i] == node_from_entry(e));
                }
            }
        } else {
            assert(all == rest);
        }
    }
}

/// The edge set a regeneration derives joins distinct valid node indexes.
pub proof fn lemma_regen_edges_wf(
    nodes: Seq<GraphNodeView>,
    table: Seq<MeshNodeView>,
    my: Option<MyNodeInfo>,
)
    requires
        nodes.len() <= usize::MAX,
    ensures
        forall|i: int| 0 <= i < spec_regen_edges(nodes, table, my).len()
            ==> (#[trigger] spec_regen_edges(nodes, table, my)[i]).u < nodes.len()
                && spec_regen_edges(nodes, table, my)[i].v < nodes.len()
                && spec_regen_edges(nodes, table, my)[i].u
                    != spec_regen_edges(nodes, table, my)[i].v,
    decreases table.len(),
{
    if table.len() > 0 && my is Some {
        lemma_regen_edges_wf(nodes, table.drop_last(), my);
        lemma_find_graph_node_range(nodes, table.last().num);
        lemma_find_graph_node_range(nodes, my->0.my_node_num);
        let rest = spec_regen_edges(nodes, table.drop_last(), my);
        let all = spec_regen_edges(nodes, table, my);
        let e = table.last();
        let ui = find_graph_node(nodes, e.num);
        let vi = find_graph_node(nodes, my->0.my_node_num);
        if e.last_snr is Some && ui >= 0 && vi >= 0 && ui != vi
            && !spec_has_edge(rest, ui as usize, vi as usize) {
            assert(all == rest.push(
                GraphEdge { u: ui as usize, v: vi as usize, snr: e.last_snr->0 },
            ));
            assert forall|i: int| 0 <= i < all.len()
                implies (#[trigger] all[i]).u < nodes.len() && all[i].v < nodes.len()
                    && all[i].u != all[i].v by {
                if i < rest.len() {
                    assert(all[i] == rest[i]);
                }
            }
        } else {
            assert(all == rest);
        }
    }
}

// ---------------------------------------------------------------------------
// Executable graph
// ---------------------------------------------------------------------------

/// Position of the node with the given node number, if any.
pub fn find_graph_node_at(nodes: &Vec<GraphNode>, num: u32) -> (r: Option<usize>)
    ensures
        ({
            let ns = nodes@.map_values(|n: GraphNode| n@);
            match r {
                Some(i) => i < ns.len() && find_graph_node(ns, num) == i as int,
                None => find_graph_node(ns, num) == -1,
            }
        }),
{
    let ghost ns = nodes@.map_values(|n: GraphNode| n@);
    let mut at: usize = 0;
    while at < nodes.len()
        invariant
            at <= ns.len(),
            ns == nodes@.map_values(|n: GraphNode| n@),
            forall|i: int| 0 <= i < at ==> ns[i].num != num,
        decreases ns.len() - at,
    {
        if nodes[at].num == num {
            proof {
                lemma_find_graph_node_skip(ns, num, at as int);
                assert(ns.skip(at as int)[0] == ns[at as int]);
            }
            return Some(at);
        }
        at = at + 1;
    }
    proof {
        lemma_find_graph_node_skip(ns, num, at as int);
        assert(ns.skip(at as int) =~= Seq::<GraphNodeView>::empty());
    }
    None
}

/// `find_graph_node` over a whole sequence is determined by the part of
/// the sequence after any prefix known to hold no match.
proof fn lemma_find_graph_node_skip(nodes: Seq<GraphNodeView>, num: u32, at: int)
    requires
        0 <= at <= nodes.len(),
        forall|i: int| 0 <= i < at ==> nodes[i].num != num,
    ensures
        find_graph_node(nodes, num) == if find_graph_node(nodes.skip(at), num) < 0 {
            -1int
        } else {
            at + find_graph_node(nodes.skip(at), num)
        },
    decreases at,
{
    if at == 0 {
        assert(nodes.skip(0) =~= nodes);
    } else {
        assert(nodes.skip(1).skip(at - 1) =~= nodes.skip(at));
        lemma_find_graph_node_skip(nodes.skip(1), num, at - 1);
        assert(nodes.drop_first() =~= nodes.skip(1));
    }
}

/// Whether some recorded edge joins the two indexes.
fn has_edge_between(edges: &Vec<GraphEdge>, a: usize, b: usize) -> (r: bool)
    ensures
        r == spec_has_edge(edges@, a, b),
{
    let mut at: usize = 0;
    while at < edges.len()
        invariant
            at <= edges@.len(),
            forall|i: int| 0 <= i < at ==> !edge_connects(edges@[i], a, b),
        decreases edges@.len() - at,
    {
        let e = edges[at];
        if (e.u == a && e.v == b) || (e.u == b && e.v == a) {
            return true;
        }
        at = at + 1;
    }
    false
}

impl Graph {
    /// An empty graph.
    pub fn new() -> (r: Graph)
        ensures
            r@ == (GraphView { nodes: Seq::empty(), edges: Seq::empty() }),
            graph_wf(r@),
    {
        let r = Graph { nodes: Vec::new(), edges: Vec::new() };
        proof {
            assert(r@ =~= GraphView { nodes: Seq::empty(), edges: Seq::empty() });
        }
        r
    }

    /// Number of nodes.
    pub fn node_count(&self) -> (n: usize)
        ensures
            n == self@.nodes.len(),
    {
        self.nodes.len()
    }

    /// The node at a graph index.
    pub fn get_node(&self, idx: usize) -> (r: Option<&GraphNode>)
        ensures
            (match r {
                Some(n) => idx < self@.nodes.len() && n@ == self@.nodes[idx as int],
                None => idx >= self@.nodes.len(),
            }),
    {
        if idx < self.nodes.len() {
            Some(&self.nodes[idx])
        } else {
            None
        }
    }

    /// The edge list.
    pub fn get_edges(&self) -> (r: &Vec<GraphEdge>)
        ensures
            r@ == self@.edges,
    {
        &self.edges
    }

    /// An exact structural copy, for the analytics snapshot history:
    /// later mutation of the live graph cannot change the copy.
    pub fn snapshot(&self) -> (r: Graph)
        ensures
            r@ == self@,
    {
        let mut nodes: Vec<GraphNode> = Vec::new();
        let mut at: usize = 0;
        while at < self.nodes.len()
            invariant
                at <= self.nodes@.len(),
                nodes@.len() == at,
                forall|i: int| 0 <= i < at ==> (#[trigger] nodes@[i])@ == self@.nodes[i],
            decreases self.nodes@.len() - at,
        {
            let n = &self.nodes[at];
            let copy = GraphNode {
                num: n.num,
                name: n.name.clone(),
                latitude: n.latitude,
                longitude: n.longitude,
                altitude: n.altitude,
            };
            proof {
                assert(copy@ =~= self@.nodes[at as int]);
            }
            nodes.push(copy);
            at = at + 1;
        }
        let mut edges: Vec<GraphEdge> = Vec::new();
        let mut eat: usize = 0;
        while eat < self.edges.len()
            invariant
                eat <= self.edges@.len(),
                edges@.len() == eat,
                forall|i: int| 0 <= i < eat ==> (#[trigger] edges@[i]) == self@.edges[i],
            decreases self.edges@.len() - eat,
        {
            edges.push(self.edges[eat]);
            eat = eat + 1;
        }
        let r = Graph { nodes: nodes, edges: edges };
        proof {
            assert(r@.nodes =~= self@.nodes);
            assert(r@.edges =~= self@.edges);
            assert(r@ =~= self@);
        }
        r
    }

    /// Graph index of the node with the given node number, if any.
    pub fn get_node_index(&self, num: u32) -> (r: Option<usize>)
        ensures
            (match r {
                Some(i) => i < self@.nodes.len()
                    && find_graph_node(self@.nodes, num) == i as int,
                None => find_graph_node(self@.nodes, num) == -1,
            }),
    {
        find_graph_node_at(&self.nodes, num)
    }
}

/// The shared topology graph, rebuilt in place from device state.
pub struct MeshGraph {
    pub graph: Graph,
}

impl MeshGraph {
    /// A fresh, empty topology.
    pub fn new() -> (r: MeshGraph)
        ensures
            r.graph@ == (GraphView { nodes: Seq::empty(), edges: Seq::empty() }),
            graph_wf(r.graph@),
    {
        MeshGraph { graph: Graph::new() }
    }

    /// Rebuild the whole graph from one device's node table. The result is
    /// a pure function of the device's state: regenerating twice with an
    /// unchanged device produces an identical graph.
    pub fn regenerate_graph_from_device_info(&mut self, device: &MeshDevice)
        ensures
            final(self).graph@ == spec_regenerate(device@),
            graph_wf(final(self).graph@),
    {
        let ghost table = device@.node_table;
        let my = device.my_node_info;

        // Derive the node arena, first occurrence of each number winning.
        let mut nodes: Vec<GraphNode> = Vec::new();
        let mut at: usize = 0;
        while at < device.node_table.len()
            invariant
                at <= device.node_table@.len(),
                table == device@.node_table,
                table.len() == device.node_table@.len(),
                nodes@.map_values(|n: GraphNode| n@)
                    == spec_regen_nodes(table.subrange(0, at as int)),
            decreases device.node_table@.len() - at,
        {
            let ghost prefix = table.subrange(0, at as int);
            let entry = &device.node_table[at];
            proof {
                assert(entry@ == table[at as int]);
                assert(table.subrange(0, at + 1).drop_last() =~= prefix);
                assert(table.subrange(0, at + 1).last() == table[at as int]);
            }
            if entry.position_metrics.len() > 0 {
                let already = find_graph_node_at(&nodes, entry.num);
                if already.is_none() && nodes.len() < MAX_GRAPH_NODES {
                    let last = entry.position_metrics.len() - 1;
                    let sample = entry.position_metrics[last];
                    let node = GraphNode {
                        num: entry.num,
                        name: u32_to_string(entry.num),
                        latitude: sample.latitude,
                        longitude: sample.longitude,
                        altitude: sample.altitude,
                    };
                    proof {
                        assert(node@ =~= node_from_entry(table[at as int]));
                    }
                    nodes.push(node);
                    proof {
                        assert(nodes@.map_values(|n: GraphNode| n@)
                            =~= spec_regen_nodes(prefix).push(node_from_entry(table[at as int])));
                    }
                }
            }
            at = at + 1;
        }
        proof {
            assert(table.subrange(0, table.len() as int) =~= table);
        }

        // Derive the edges from the device's own node to each geolocated
        // node with a known signal-to-noise ratio.
        let ghost ns = nodes@.map_values(|n: GraphNode| n@);
        let mut edges: Vec<GraphEdge> = Vec::new();
        match my {
            Some(my_info) => {
                let mut eat: usize = 0;
                while eat < device.node_table.len()
                    invariant
                        eat <= device.node_table@.len(),
                        table == device@.node_table,
                        table.len() == device.node_table@.len(),
                        ns == nodes@.map_values(|n: GraphNode| n@),
                        device@.my_node_info == Some(my_info),
                        edges@ == spec_regen_edges(
                            ns,
                            table.subrange(0, eat as int),
                            Some(my_info),
                        ),
                    decreases device.node_table@.len() - eat,
                {
                    let ghost prefix = table.subrange(0, eat as int);
                    let entry = &device.node_table[eat];
                    proof {
                        assert(entry@ == table[eat as int]);
                        assert(table.subrange(0, eat + 1).drop_last() =~= prefix);
                        assert(table.subrange(0, eat + 1).last() == table[eat as int]);
                    }
                    match entry.last_snr {
                        Some(snr) => {
                            let ui = find_graph_node_at(&nodes, entry.num);
                            let vi = find_graph_node_at(&nodes, my_info.my_node_num);
                            match (ui, vi) {
                                (Some(u), Some(v)) => {
                                    if u != v && !has_edge_between(&edges, u, v) {
                                        edges.push(GraphEdge { u: u, v: v, snr: snr });
                                    }
                                },
                                _ => {},
                            }
                        },
                        None => {},
                    }
                    eat = eat + 1;
                }
                proof {
                    assert(table.subrange(0, table.len() as int) =~= table);
                }
            },
            None => {
                proof {
                    assert(edges@ =~= spec_regen_edges(ns, table, device@.my_node_info));
                }
            },
        }

        self.graph = Graph { nodes: nodes, edges: edges };
        proof {
            assert(self.graph@ =~= spec_regenerate(device@));
            lemma_regen_nodes_wf(table);
            lemma_regen_edges_wf(ns, table, device@.my_node_info);
        }
    }
}

/// Regeneration is idempotent: with an unchanged device, a second rebuild
/// yields the same graph as the first, whatever graph either started from.
pub proof fn lemma_regenerate_idempotent(d: MeshDeviceView, g1: GraphView, g2: GraphView)
    requires
        g1 == spec_regenerate(d),
        g2 == spec_regenerate(d),
    ensures
        g1 == g2,
{
}

/// Map a petgraph node index back to the mesh node number it addresses,
/// when it addresses one.
pub fn node_index_to_node_id(
    nodeindex: &petgraph::graph::NodeIndex<u32>,
    graph: &Graph,
) -> (r: Option<u32>)
    ensures
        (match r {
            Some(num) => node_index_value(*nodeindex) < graph@.nodes.len()
                && num == graph@.nodes[node_index_value(*nodeindex) as int].num,
            None => node_index_value(*nodeindex) >= graph@.nodes.len(),
        }),
{
    let idx = node_index_get(nodeindex);
    if idx < graph.nodes.len() {
        Some(graph.nodes[idx].num)
    } else {
        None
    }
}

} // verus!

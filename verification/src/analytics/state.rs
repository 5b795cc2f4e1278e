//! The analytics state: time-ordered snapshots of the topology graph, the
//! enabled-algorithm configuration, and the most recent result set.
//!
//! Each algorithm's outcome is independently `Success`, `Error` or
//! `Empty`: "ran and found nothing to say" is a distinct, non-error
//! terminal state, and one algorithm's failure never prevents the others
//! from running.

use vstd::prelude::*;

use crate::analytics::articulation::articulation_points;
use crate::analytics::articulation::is_articulation_point;
use crate::analytics::diffusion::NodeDiffusion;
use crate::analytics::diffusion::diffusion_scores;
use crate::analytics::diffusion::diffusion_table_wf;
use crate::analytics::mincut::crosses;
use crate::analytics::mincut::nontrivial_partition;
use crate::analytics::mincut::stoer_wagner_min_cut;
use crate::graph::Graph;
use crate::graph::GraphEdge;
use crate::graph::GraphView;
use crate::graph::graph_wf;
use crate::node_index::node_index_new;
use crate::node_index::node_index_value;

verus! {

/// Which algorithms an analytics run executes.
#[derive(Clone, Copy, PartialEq, Eq, Structural, Debug)]
pub struct AlgorithmConfigFlags {
    pub articulation_point: bool,
    pub mincut: bool,
    pub diffusion_centrality: bool,
}

/// One edge of a computed cut, addressed by petgraph node indexes.
#[derive(PartialEq, Debug)]
pub struct CutEdge {
    pub u: petgraph::graph::NodeIndex<u32>,
    pub v: petgraph::graph::NodeIndex<u32>,
    pub weight: i32,
}

impl CutEdge {
    /// One endpoint of the cut edge.
    pub fn get_u(&self) -> (r: petgraph::graph::NodeIndex<u32>)
        ensures
            node_index_value(r) == node_index_value(self.u),
    {
        self.u
    }

    /// The other endpoint of the cut edge.
    pub fn get_v(&self) -> (r: petgraph::graph::NodeIndex<u32>)
        ensures
            node_index_value(r) == node_index_value(self.v),
    {
        self.v
    }
}

/// Outcome of the articulation-point search.
#[derive(PartialEq, Debug)]
pub enum APResult {
    Success(Vec<petgraph::graph::NodeIndex<u32>>),
    Error(String),
    Empty(String),
}

/// Outcome of the minimum-cut search.
#[derive(PartialEq, Debug)]
pub enum MinCutResult {
    Success(Vec<CutEdge>),
    Error(String),
    Empty(String),
}

/// Outcome of the diffusion-centrality computation.
#[derive(Clone, PartialEq, Debug)]
pub enum DiffCenResult {
    Success(Vec<NodeDiffusion>),
    Error(String),
    Empty(String),
}

/// The most recent result of every algorithm.
#[derive(PartialEq, Debug)]
pub struct AlgorithmResults {
    pub aps: APResult,
    pub mincut: MinCutResult,
    pub diff_cent: DiffCenResult,
}

/// The articulation-point payload lists exactly the cut vertices of the
/// snapshot, in ascending index order.
pub open spec fn ap_payload_matches(
    g: GraphView,
    v: Seq<petgraph::graph::NodeIndex<u32>>,
) -> bool {
    &&& forall|k: int| 0 <= k < v.len()
        ==> is_articulation_point(g, node_index_value(#[trigger] v[k]) as int)
    &&& forall|k1: int, k2: int| 0 <= k1 < k2 < v.len()
        ==> node_index_value(v[k1]) < node_index_value(v[k2])
    &&& forall|x: int| 0 <= x < g.nodes.len() && is_articulation_point(g, x)
        ==> exists|k: int| 0 <= k < v.len() && node_index_value(v[k]) == x
}

/// One cut entry mirrors some crossing edge of the snapshot.
pub open spec fn entry_is_crossing_edge(g: GraphView, side: Seq<bool>, ce: CutEdge) -> bool {
    exists|e: GraphEdge|
        g.edges.contains(e) && crosses(side, e) && node_index_value(ce.u) == e.u
            && node_index_value(ce.v) == e.v && ce.weight == e.snr
}

/// One edge of the snapshot is mirrored by some cut entry.
pub open spec fn edge_is_in_cut(cut: Seq<CutEdge>, e: GraphEdge) -> bool {
    exists|k: int|
        0 <= k < cut.len() && node_index_value(cut[k].u) == e.u
            && node_index_value(cut[k].v) == e.v && cut[k].weight == e.snr
}

/// The cut payload lists exactly the edges of the snapshot that cross
/// the given partition.
pub open spec fn cut_matches_side(g: GraphView, cut: Seq<CutEdge>, side: Seq<bool>) -> bool {
    &&& nontrivial_partition(g, side)
    &&& forall|k: int| 0 <= k < cut.len()
        ==> entry_is_crossing_edge(g, side, #[trigger] cut[k])
    &&& forall|e: int| 0 <= e < g.edges.len() && crosses(side, #[trigger] g.edges[e])
        ==> edge_is_in_cut(cut, g.edges[e])
}

/// Introduction rule for [`cut_matches_side`]: a payload that mirrors,
/// entry by entry, a core edge list that is exactly the crossing set of
/// the partition, matches that partition.
proof fn lemma_cut_payload_intro(
    g: GraphView,
    core: Seq<GraphEdge>,
    payload: Seq<CutEdge>,
    side: Seq<bool>,
)
    requires
        nontrivial_partition(g, side),
        payload.len() == core.len(),
        forall|k: int| 0 <= k < core.len()
            ==> g.edges.contains(#[trigger] core[k]) && crosses(side, core[k]),
        forall|e: int| 0 <= e < g.edges.len() && crosses(side, #[trigger] g.edges[e])
            ==> core.contains(g.edges[e]),
        forall|k: int| 0 <= k < payload.len()
            ==> node_index_value((#[trigger] payload[k]).u) == core[k].u
                && node_index_value(payload[k].v) == core[k].v
                && payload[k].weight == core[k].snr,
    ensures
        cut_matches_side(g, payload, side),
{
    assert forall|k: int| 0 <= k < payload.len()
        implies entry_is_crossing_edge(g, side, #[trigger] payload[k]) by {
        let e = core[k];
        assert(g.edges.contains(e) && crosses(side, e)
            && node_index_value(payload[k].u) == e.u
            && node_index_value(payload[k].v) == e.v && payload[k].weight == e.snr);
        assert(entry_is_crossing_edge(g, side, payload[k]));
    }
    assert forall|e: int| 0 <= e < g.edges.len() && crosses(side, #[trigger] g.edges[e])
        implies edge_is_in_cut(payload, g.edges[e]) by {
        assert(core.contains(g.edges[e]));
        let k = choose|k: int| 0 <= k < core.len() && core[k] == g.edges[e];
        assert(0 <= k < payload.len() && node_index_value(payload[k].u) == g.edges[e].u
            && node_index_value(payload[k].v) == g.edges[e].v
            && payload[k].weight == g.edges[e].snr);
        assert(edge_is_in_cut(payload, g.edges[e]));
    }
}

/// The minimum-cut payload lists exactly the edges of the snapshot that
/// cross one nontrivial partition of its vertices.
pub open spec fn mincut_payload_matches(g: GraphView, cut: Seq<CutEdge>) -> bool {
    exists|side: Seq<bool>| cut_matches_side(g, cut, side)
}

/// The analytics engine's state: the snapshot history, the enabled
/// algorithms, and the last results.
pub struct AnalyticsState {
    pub snapshots: Vec<Graph>,
    pub flags: AlgorithmConfigFlags,
    pub results: AlgorithmResults,
}

impl AnalyticsState {
    /// Every stored snapshot is a well-formed graph.
    pub open spec fn wf(&self) -> bool {
        forall|i: int| 0 <= i < self.snapshots@.len()
            ==> graph_wf((#[trigger] self.snapshots@[i])@)
    }

    /// A fresh engine: no snapshots, nothing enabled, nothing computed.
    pub fn new() -> (r: AnalyticsState)
        ensures
            r.wf(),
            r.snapshots@.len() == 0,
            r.flags == (AlgorithmConfigFlags {
                articulation_point: false,
                mincut: false,
                diffusion_centrality: false,
            }),
            (r.results.aps is Empty),
            (r.results.mincut is Empty),
            (r.results.diff_cent is Empty),
    {
        AnalyticsState {
            snapshots: Vec::new(),
            flags: AlgorithmConfigFlags {
                articulation_point: false,
                mincut: false,
                diffusion_centrality: false,
            },
            results: AlgorithmResults {
                aps: APResult::Empty("analytics never run".to_owned()),
                mincut: MinCutResult::Empty("analytics never run".to_owned()),
                diff_cent: DiffCenResult::Empty("analytics never run".to_owned()),
            },
        }
    }

    /// Append an immutable copy of the live graph to the snapshot history.
    pub fn add_graph_snapshot(&mut self, graph: &Graph)
        requires
            old(self).wf(),
            graph_wf(graph@),
        ensures
            final(self).wf(),
            final(self).snapshots@.len() == old(self).snapshots@.len() + 1,
            forall|i: int| 0 <= i < old(self).snapshots@.len()
                ==> (#[trigger] final(self).snapshots@[i]) == old(self).snapshots@[i],
            final(self).snapshots@.last()@ == graph@,
            final(self).flags == old(self).flags,
            final(self).results == old(self).results,
    {
        let copy = graph.snapshot();
        self.snapshots.push(copy);
    }

    /// Replace the enabled-algorithm configuration.
    pub fn set_algorithm_flags(&mut self, flags: AlgorithmConfigFlags)
        ensures
            *final(self) == (AnalyticsState { flags: flags, ..*old(self) }),
    {
        self.flags = flags;
    }

    /// The last computed result set.
    pub fn get_algo_results(&self) -> (r: &AlgorithmResults)
        ensures
            *r == self.results,
    {
        &self.results
    }

    /// Run every enabled algorithm against the latest snapshot; diffusion
    /// centrality takes one time step per stored snapshot. An algorithm
    /// that is not enabled keeps its previous result. With no snapshot at
    /// all, with fewer than 3 nodes (articulation points) or fewer than 2
    /// nodes (minimum cut), the outcome is `Empty`, never `Error`.
    pub fn run_algos(&mut self)
        requires
            old(self).wf(),
        ensures
            final(self).wf(),
            final(self).snapshots == old(self).snapshots,
            final(self).flags == old(self).flags,
            ({
                let flags = old(self).flags;
                let snaps = old(self).snapshots@;
                let results = final(self).results;
                &&& (!flags.articulation_point ==> results.aps == old(self).results.aps)
                &&& (!flags.mincut ==> results.mincut == old(self).results.mincut)
                &&& (!flags.diffusion_centrality
                    ==> results.diff_cent == old(self).results.diff_cent)
                &&& (flags.articulation_point ==> match results.aps {
                    APResult::Success(v) => snaps.len() > 0 && snaps.last()@.nodes.len() >= 3
                        && ap_payload_matches(snaps.last()@, v@),
                    APResult::Empty(_) => snaps.len() == 0
                        || snaps.last()@.nodes.len() < 3,
                    APResult::Error(_) => false,
                })
                &&& (flags.mincut ==> match results.mincut {
                    MinCutResult::Success(cut) => snaps.len() > 0
                        && snaps.last()@.nodes.len() >= 2
                        && mincut_payload_matches(snaps.last()@, cut@),
                    MinCutResult::Empty(_) => snaps.len() == 0
                        || snaps.last()@.nodes.len() < 2,
                    MinCutResult::Error(_) => false,
                })
                &&& (flags.diffusion_centrality ==> match results.diff_cent {
                    DiffCenResult::Success(table) => snaps.len() > 0
                        && diffusion_table_wf(snaps.last()@, snaps.len() as nat, table@),
                    DiffCenResult::Empty(_) => snaps.len() == 0,
                    DiffCenResult::Error(_) => false,
                })
            }),
    {
        let total = self.snapshots.len();

        if self.flags.articulation_point {
            if total == 0 {
                self.results.aps = APResult::Empty("no snapshots recorded".to_owned());
            } else {
                let snap = self.snapshots[total - 1].snapshot();
                if snap.node_count() < 3 {
                    self.results.aps = APResult::Empty(
                        "the graph has fewer than 3 nodes".to_owned(),
                    );
                } else {
                    let indexes = articulation_points(&snap);
                    let mut payload: Vec<petgraph::graph::NodeIndex<u32>> = Vec::new();
                    let mut at: usize = 0;
                    while at < indexes.len()
                        invariant
                            graph_wf(snap@),
                            forall|k: int| 0 <= k < indexes.len()
                                ==> is_articulation_point(
                                    snap@,
                                    (#[trigger] indexes[k]) as int,
                                ),
                            forall|k1: int, k2: int| 0 <= k1 < k2 < indexes.len()
                                ==> indexes[k1] < indexes[k2],
                            forall|x: int| 0 <= x < snap@.nodes.len()
                                && is_articulation_point(snap@, x)
                                ==> indexes@.contains(x as usize),
                            at <= indexes@.len(),
                            payload@.len() == at,
                            forall|k: int| 0 <= k < at
                                ==> node_index_value(#[trigger] payload@[k])
                                    == indexes@[k],
                        decreases indexes@.len() - at,
                    {
                        proof {
                            assert(is_articulation_point(snap@, indexes@[at as int] as int));
                        }
                        let ix = node_index_new(indexes[at]);
                        payload.push(ix);
                        at = at + 1;
                    }
                    proof {
                        assert forall|x: int| 0 <= x < snap@.nodes.len()
                            && is_articulation_point(snap@, x)
                            implies exists|k: int|
                                0 <= k < payload@.len()
                                    && node_index_value(payload@[k]) == x by {
                            assert(indexes@.contains(x as usize));
                            let k = choose|k: int|
                                0 <= k < indexes@.len() && indexes@[k] == x as usize;
                            assert(node_index_value(payload@[k]) == x);
                        }
                        assert(ap_payload_matches(snap@, payload@));
                    }
                    self.results.aps = APResult::Success(payload);
                }
            }
        }

        if self.flags.mincut {
            if total == 0 {
                self.results.mincut = MinCutResult::Empty("no snapshots recorded".to_owned());
            } else {
                let snap = self.snapshots[total - 1].snapshot();
                if snap.node_count() < 2 {
                    self.results.mincut = MinCutResult::Empty(
                        "the graph has fewer than 2 nodes".to_owned(),
                    );
                } else {
                    let core = stoer_wagner_min_cut(&snap);
                    let ghost side = choose|side: Seq<bool>|
                        nontrivial_partition(snap@, side)
                            && (forall|k: int| 0 <= k < core.len()
                                ==> snap@.edges.contains(#[trigger] core[k])
                                    && crosses(side, core[k]))
                            && (forall|e: int| 0 <= e < snap@.edges.len()
                                && crosses(side, #[trigger] snap@.edges[e])
                                    ==> core@.contains(snap@.edges[e]));
                    let mut payload: Vec<CutEdge> = Vec::new();
                    let mut at: usize = 0;
                    while at < core.len()
                        invariant
                            graph_wf(snap@),
                            forall|k: int| 0 <= k < core.len()
                                ==> snap@.edges.contains(#[trigger] core[k])
                                    && crosses(side, core[k]),
                            at <= core@.len(),
                            payload@.len() == at,
                            forall|k: int| 0 <= k < at
                                ==> node_index_value((#[trigger] payload@[k]).u)
                                    == core@[k].u
                                    && node_index_value(payload@[k].v) == core@[k].v
                                    && payload@[k].weight == core@[k].snr,
                        decreases core@.len() - at,
                    {
                        let e = core[at];
                        proof {
                            assert(snap@.edges.contains(core@[at as int]));
                            let k = choose|k: int|
                                0 <= k < snap@.edges.len() && snap@.edges[k] == e;
                            assert(snap@.edges[k].u < snap@.nodes.len());
                        }
                        let edge = CutEdge {
                            u: node_index_new(e.u),
                            v: node_index_new(e.v),
                            weight: e.snr,
                        };
                        payload.push(edge);
                        at = at + 1;
                    }
                    proof {
                        lemma_cut_payload_intro(snap@, core@, payload@, side);
                        assert(mincut_payload_matches(snap@, payload@));
                    }
                    self.results.mincut = MinCutResult::Success(payload);
                }
            }
        }

        if self.flags.diffusion_centrality {
            if total == 0 {
                self.results.diff_cent = DiffCenResult::Empty(
                    "no snapshots recorded".to_owned(),
                );
            } else {
                let snap = self.snapshots[total - 1].snapshot();
                let table = diffusion_scores(&snap, total);
                self.results.diff_cent = DiffCenResult::Success(table);
            }
        }
    }
}

} // verus!

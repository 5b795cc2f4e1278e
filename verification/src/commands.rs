//! The command layer's computing core: initializing the shared session
//! state, running the analytics pipeline and shaping its results for the
//! caller, and naming configuration exports.

use vstd::prelude::*;
use vstd::string::StringExecFns;

use crate::analytics::diffusion::diffusion_table_wf;
use crate::analytics::state::APResult;
use crate::analytics::state::AlgorithmConfigFlags;
use crate::analytics::state::AnalyticsState;
use crate::analytics::state::CutEdge;
use crate::analytics::state::DiffCenResult;
use crate::analytics::state::MinCutResult;
use crate::analytics::state::ap_payload_matches;
use crate::analytics::state::mincut_payload_matches;
use crate::graph::GraphView;
use crate::graph::MeshGraph;
use crate::graph::graph_wf;
use crate::graph::node_index_to_node_id;
use crate::node_index::node_index_value;
use crate::text::decimal_digits;
use crate::text::parse_u32_or_zero;
use crate::text::spec_parse_u32_or_zero;
use crate::text::u64_to_string;

verus! {

/// A command-layer failure, carried as a human-readable message.
#[derive(Clone, PartialEq, Debug)]
pub struct CommandError {
    pub message: String,
}

/// One target node's diffusion score, with its key parsed back to a
/// number (0 for an unparsable key).
#[derive(Clone, Copy, PartialEq, Eq, Structural, Debug)]
pub struct DiffCenTargetEntry {
    pub node: u32,
    pub score: u64,
}

/// One time step's diffusion scores, with its key parsed back.
#[derive(Clone, PartialEq, Debug)]
pub struct DiffCenStepEntry {
    pub step: u32,
    pub targets: Vec<DiffCenTargetEntry>,
}

/// One source node's diffusion scores, with its key parsed back.
#[derive(Clone, PartialEq, Debug)]
pub struct DiffCenNodeEntry {
    pub node: u32,
    pub steps: Vec<DiffCenStepEntry>,
}

/// The analytics results shaped for the caller: articulation points and
/// cut endpoints as node numbers, diffusion scores keyed by parsed
/// numbers.
#[derive(Clone, PartialEq, Debug)]
pub struct APMincutStringResults {
    pub ap_result: Vec<u32>,
    pub mincut_result: Vec<(u32, u32)>,
    pub diffcen_result: Vec<DiffCenNodeEntry>,
}

/// The node numbers addressed by a list of node indexes: each index that
/// addresses an existing node contributes that node's number, any other
/// index is dropped.
pub open spec fn spec_ap_nums(
    g: GraphView,
    v: Seq<petgraph::graph::NodeIndex<u32>>,
) -> Seq<u32>
    decreases v.len(),
{
    if v.len() == 0 {
        Seq::empty()
    } else {
        let rest = spec_ap_nums(g, v.drop_last());
        let ix = node_index_value(v.last());
        if ix < g.nodes.len() {
            rest.push(g.nodes[ix as int].num)
        } else {
            rest
        }
    }
}

/// The node-number pairs addressed by a list of cut edges: each edge
/// whose endpoints both address existing nodes contributes their numbers,
/// any other edge is dropped.
pub open spec fn spec_mincut_pairs(g: GraphView, cut: Seq<CutEdge>) -> Seq<(u32, u32)>
    decreases cut.len(),
{
    if cut.len() == 0 {
        Seq::empty()
    } else {
        let rest = spec_mincut_pairs(g, cut.drop_last());
        let ui = node_index_value(cut.last().u);
        let vi = node_index_value(cut.last().v);
        if ui < g.nodes.len() && vi < g.nodes.len() {
            rest.push((g.nodes[ui as int].num, g.nodes[vi as int].num))
        } else {
            rest
        }
    }
}

/// A fresh shared session state: an empty topology graph and an analytics
/// engine with no snapshot history, no algorithm enabled, and nothing
/// computed. Any prior session state the caller held is discarded by
/// replacing it with this pair.
pub fn initialize_graph_state() -> (r: (MeshGraph, AnalyticsState))
    ensures
        r.0.graph@.nodes.len() == 0,
        r.0.graph@.edges.len() == 0,
        graph_wf(r.0.graph@),
        r.1.wf(),
        r.1.snapshots@.len() == 0,
        r.1.flags == (AlgorithmConfigFlags {
            articulation_point: false,
            mincut: false,
            diffusion_centrality: false,
        }),
        (r.1.results.aps is Empty),
        (r.1.results.mincut is Empty),
        (r.1.results.diff_cent is Empty),
{
    (MeshGraph::new(), AnalyticsState::new())
}

/// The file name a configuration export is saved under: the caller's
/// base name (or "config"), the export time in seconds, and the
/// ".config.json" suffix.
pub fn export_config_file_name(starting_file_name: Option<String>, seconds: u64) -> (r: String)
    ensures
        r@ == (match starting_file_name {
            Some(base) => base@,
            None => "config"@,
        }) + "-"@ + decimal_digits(seconds as nat) + ".config.json"@,
{
    let mut name: String = match starting_file_name {
        Some(base) => base,
        None => "config".to_owned(),
    };
    name.append("-");
    let stamp = u64_to_string(seconds);
    name.append(stamp.as_str());
    name.append(".config.json");
    name
}

/// Snapshot the live graph, run the enabled algorithms, and shape the
/// results: articulation points and minimum-cut edges are reported by
/// node number (an index that no longer addresses a node is dropped),
/// and every decimal key of the diffusion table is parsed
/// back to a number, falling back to 0 where it does not parse. An
/// algorithm whose stored outcome is an `Error` aborts the command with
/// that error; the verified algorithms never produce one.
pub fn run_algorithms(
    flags: AlgorithmConfigFlags,
    graph: &MeshGraph,
    state: &mut AnalyticsState,
) -> (r: Result<APMincutStringResults, CommandError>)
    requires
        old(state).wf(),
        graph_wf(graph.graph@),
    ensures
        final(state).wf(),
        final(state).flags == flags,
        final(state).snapshots@.len() == old(state).snapshots@.len() + 1,
        final(state).snapshots@.last()@ == graph.graph@,
        (r is Err) <==> (final(state).results.aps is Error
            || final(state).results.mincut is Error
            || final(state).results.diff_cent is Error),
        flags.articulation_point ==> (match final(state).results.aps {
            APResult::Success(v) => graph.graph@.nodes.len() >= 3
                && ap_payload_matches(graph.graph@, v@),
            APResult::Empty(_) => graph.graph@.nodes.len() < 3,
            APResult::Error(_) => false,
        }),
        !flags.articulation_point ==> final(state).results.aps
            == old(state).results.aps,
        flags.mincut ==> (match final(state).results.mincut {
            MinCutResult::Success(cut) => graph.graph@.nodes.len() >= 2
                && mincut_payload_matches(graph.graph@, cut@),
            MinCutResult::Empty(_) => graph.graph@.nodes.len() < 2,
            MinCutResult::Error(_) => false,
        }),
        !flags.mincut ==> final(state).results.mincut == old(state).results.mincut,
        flags.diffusion_centrality ==> (match final(state).results.diff_cent {
            DiffCenResult::Success(table) => diffusion_table_wf(
                graph.graph@,
                (old(state).snapshots@.len() + 1) as nat,
                table@,
            ),
            DiffCenResult::Empty(_) => false,
            DiffCenResult::Error(_) => false,
        }),
        !flags.diffusion_centrality ==> final(state).results.diff_cent
            == old(state).results.diff_cent,
        (match r {
            Ok(out) => {
                let g = graph.graph@;
                &&& (match final(state).results.aps {
                    APResult::Success(v) => out.ap_result@ == spec_ap_nums(g, v@),
                    APResult::Empty(_) => out.ap_result@.len() == 0,
                    APResult::Error(_) => false,
                })
                &&& (match final(state).results.mincut {
                    MinCutResult::Success(cut) => out.mincut_result@
                        == spec_mincut_pairs(g, cut@),
                    MinCutResult::Empty(_) => out.mincut_result@.len() == 0,
                    MinCutResult::Error(_) => false,
                })
                &&& (match final(state).results.diff_cent {
                    DiffCenResult::Success(table) => out.diffcen_result@.len()
                        == table@.len()
                        && (forall|i: int| 0 <= i < table@.len()
                            ==> (#[trigger] out.diffcen_result@[i]).node
                                == spec_parse_u32_or_zero(table@[i].node@)
                                && out.diffcen_result@[i].steps@.len()
                                    == table@[i].steps@.len())
                        && (forall|i: int, t: int|
                            0 <= i < table@.len() && 0 <= t < table@[i].steps@.len()
                                ==> (#[trigger] out.diffcen_result@[i].steps@[t]).step
                                    == spec_parse_u32_or_zero(table@[i].steps@[t].step@)
                                    && out.diffcen_result@[i].steps@[t].targets@.len()
                                        == table@[i].steps@[t].targets@.len())
                        && (forall|i: int, t: int, j: int|
                            0 <= i < table@.len() && 0 <= t < table@[i].steps@.len()
                                && 0 <= j < table@[i].steps@[t].targets@.len()
                                ==> (#[trigger] out.diffcen_result@[i].steps@[t].targets@[j])
                                    == (DiffCenTargetEntry {
                                        node: spec_parse_u32_or_zero(
                                            table@[i].steps@[t].targets@[j].node@,
                                        ),
                                        score: table@[i].steps@[t].targets@[j].score,
                                    })),
                    DiffCenResult::Empty(_) => out.diffcen_result@.len() == 0,
                    DiffCenResult::Error(_) => false,
                })
            },
            Err(_) => true,
        }),
{
    state.add_graph_snapshot(&graph.graph);
    state.set_algorithm_flags(flags);
    state.run_algos();

    let ghost g = graph.graph@;

    // Articulation points: node indexes to node numbers.
    let mut ap_vec: Vec<u32> = Vec::new();
    match &state.results.aps {
        APResult::Success(v) => {
            let mut at: usize = 0;
            while at < v.len()
                invariant
                    graph_wf(g),
                    g == graph.graph@,
                    at <= v@.len(),
                    ap_vec@ == spec_ap_nums(g, v@.subrange(0, at as int)),
                decreases v@.len() - at,
            {
                let ghost prefix = v@.subrange(0, at as int);
                proof {
                    assert(v@.subrange(0, at + 1).drop_last() =~= prefix);
                    assert(v@.subrange(0, at + 1).last() == v@[at as int]);
                }
                match node_index_to_node_id(&v[at], &graph.graph) {
                    Some(num) => {
                        ap_vec.push(num);
                    },
                    None => {},
                }
                proof {
                    assert(ap_vec@ =~= spec_ap_nums(g, v@.subrange(0, at + 1)));
                }
                at = at + 1;
            }
            proof {
                assert(v@.subrange(0, v@.len() as int) =~= v@);
            }
        },
        APResult::Error(e) => {
            return Err(CommandError { message: e.clone() });
        },
        APResult::Empty(_) => {},
    }

    // Minimum cut: index pairs to node-number pairs.
    let mut mincut_vec: Vec<(u32, u32)> = Vec::new();
    match &state.results.mincut {
        MinCutResult::Success(cut) => {
            let mut at: usize = 0;
            while at < cut.len()
                invariant
                    graph_wf(g),
                    g == graph.graph@,
                    at <= cut@.len(),
                    mincut_vec@ == spec_mincut_pairs(g, cut@.subrange(0, at as int)),
                decreases cut@.len() - at,
            {
                let ghost prefix = cut@.subrange(0, at as int);
                proof {
                    assert(cut@.subrange(0, at + 1).drop_last() =~= prefix);
                    assert(cut@.subrange(0, at + 1).last() == cut@[at as int]);
                }
                let u_ix = cut[at].get_u();
                let v_ix = cut[at].get_v();
                let u_res = node_index_to_node_id(&u_ix, &graph.graph);
                let v_res = node_index_to_node_id(&v_ix, &graph.graph);
                match (u_res, v_res) {
                    (Some(u_num), Some(v_num)) => {
                        mincut_vec.push((u_num, v_num));
                    },
                    _ => {},
                }
                proof {
                    assert(mincut_vec@ =~= spec_mincut_pairs(g, cut@.subrange(0, at + 1)));
                }
                at = at + 1;
            }
            proof {
                assert(cut@.subrange(0, cut@.len() as int) =~= cut@);
            }
        },
        MinCutResult::Error(e) => {
            return Err(CommandError { message: e.clone() });
        },
        MinCutResult::Empty(_) => {},
    }

    // Diffusion centrality: parse every decimal key back to a number.
    let mut diffcen_vec: Vec<DiffCenNodeEntry> = Vec::new();
    match &state.results.diff_cent {
        DiffCenResult::Success(table) => {
            let mut i: usize = 0;
            while i < table.len()
                invariant
                    i <= table@.len(),
                    diffcen_vec@.len() == i,
                    forall|x: int| 0 <= x < i
                        ==> (#[trigger] diffcen_vec@[x]).node
                            == spec_parse_u32_or_zero(table@[x].node@)
                            && diffcen_vec@[x].steps@.len() == table@[x].steps@.len(),
                    forall|x: int, t: int|
                        0 <= x < i && 0 <= t < table@[x].steps@.len()
                            ==> (#[trigger] diffcen_vec@[x].steps@[t]).step
                                == spec_parse_u32_or_zero(table@[x].steps@[t].step@)
                                && diffcen_vec@[x].steps@[t].targets@.len()
                                    == table@[x].steps@[t].targets@.len(),
                    forall|x: int, t: int, j: int|
                        0 <= x < i && 0 <= t < table@[x].steps@.len()
                            && 0 <= j < table@[x].steps@[t].targets@.len()
                            ==> (#[trigger] diffcen_vec@[x].steps@[t].targets@[j])
                                == (DiffCenTargetEntry {
                                    node: spec_parse_u32_or_zero(
                                        table@[x].steps@[t].targets@[j].node@,
                                    ),
                                    score: table@[x].steps@[t].targets@[j].score,
                                }),
                decreases table@.len() - i,
            {
                let source = &table[i];
                let mut steps: Vec<DiffCenStepEntry> = Vec::new();
                let mut t: usize = 0;
                while t < source.steps.len()
                    invariant
                        *source == table@[i as int],
                        i < table@.len(),
                        t <= source.steps@.len(),
                        steps@.len() == t,
                        forall|x: int| 0 <= x < t
                            ==> (#[trigger] steps@[x]).step
                                == spec_parse_u32_or_zero(source.steps@[x].step@)
                                && steps@[x].targets@.len()
                                    == source.steps@[x].targets@.len(),
                        forall|x: int, j: int|
                            0 <= x < t && 0 <= j < source.steps@[x].targets@.len()
                                ==> (#[trigger] steps@[x].targets@[j])
                                    == (DiffCenTargetEntry {
                                        node: spec_parse_u32_or_zero(
                                            source.steps@[x].targets@[j].node@,
                                        ),
                                        score: source.steps@[x].targets@[j].score,
                                    }),
                    decreases source.steps@.len() - t,
                {
                    let step_scores = &source.steps[t];
                    let mut targets: Vec<DiffCenTargetEntry> = Vec::new();
                    let mut j: usize = 0;
                    while j < step_scores.targets.len()
                        invariant
                            *step_scores == source.steps@[t as int],
                            *source == table@[i as int],
                            t < source.steps@.len(),
                            j <= step_scores.targets@.len(),
                            targets@.len() == j,
                            forall|x: int| 0 <= x < j
                                ==> (#[trigger] targets@[x]) == (DiffCenTargetEntry {
                                    node: spec_parse_u32_or_zero(
                                        step_scores.targets@[x].node@,
                                    ),
                                    score: step_scores.targets@[x].score,
                                }),
                        decreases step_scores.targets@.len() - j,
                    {
                        let target = &step_scores.targets[j];
                        let parsed = parse_u32_or_zero(target.node.as_str());
                        targets.push(
                            DiffCenTargetEntry { node: parsed, score: target.score },
                        );
                        j = j + 1;
                    }
                    let parsed_step = parse_u32_or_zero(step_scores.step.as_str());
                    steps.push(DiffCenStepEntry { step: parsed_step, targets: targets });
                    t = t + 1;
                }
                let parsed_node = parse_u32_or_zero(source.node.as_str());
                diffcen_vec.push(DiffCenNodeEntry { node: parsed_node, steps: steps });
                i = i + 1;
            }
        },
        DiffCenResult::Error(_) => {
            return Err(
                CommandError {
                    message: "Diffusion centrality algorithm failed".to_owned(),
                },
            );
        },
        DiffCenResult::Empty(_) => {},
    }

    Ok(
        APMincutStringResults {
            ap_result: ap_vec,
            mincut_result: mincut_vec,
            diffcen_result: diffcen_vec,
        },
    )
}

} // verus!


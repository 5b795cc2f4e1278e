//! The analytics engine: articulation points, minimum cut, diffusion
//! centrality, and the command that runs them all.

use meshtopo::analytics::articulation::articulation_points;
use meshtopo::analytics::mincut::stoer_wagner_min_cut;
use meshtopo::analytics::state::APResult;
use meshtopo::analytics::state::AlgorithmConfigFlags;
use meshtopo::analytics::state::AnalyticsState;
use meshtopo::analytics::state::DiffCenResult;
use meshtopo::analytics::state::MinCutResult;
use meshtopo::commands::run_algorithms;
use meshtopo::graph::Graph;
use meshtopo::graph::GraphEdge;
use meshtopo::graph::GraphNode;
use meshtopo::graph::MeshGraph;

fn node(num: u32, latitude: i32, longitude: i32) -> GraphNode {
    GraphNode { num, name: num.to_string(), latitude, longitude, altitude: 0 }
}

/// The path graph 1 - 2 - 3 with uniform weight 1.
fn path_graph() -> Graph {
    Graph {
        nodes: vec![node(1, 10, 10), node(2, 20, 20), node(3, 30, 30)],
        edges: vec![
            GraphEdge { u: 0, v: 1, snr: 1 },
            GraphEdge { u: 1, v: 2, snr: 1 },
        ],
    }
}

fn all_flags() -> AlgorithmConfigFlags {
    AlgorithmConfigFlags {
        articulation_point: true,
        mincut: true,
        diffusion_centrality: true,
    }
}

#[test]
fn articulation_points_on_path_graph() {
    let graph = path_graph();
    let aps = articulation_points(&graph);
    // The middle node is the only cut vertex.
    assert_eq!(aps, vec![1]);
}

#[test]
fn min_cut_on_path_graph_isolates_one_edge() {
    let graph = path_graph();
    let cut = stoer_wagner_min_cut(&graph);
    assert_eq!(cut.len(), 1);
    let e = cut[0];
    let endpoints = (e.u.min(e.v), e.u.max(e.v));
    assert!(endpoints == (0, 1) || endpoints == (1, 2));
    assert_eq!(e.snr, 1);
}

#[test]
fn run_algorithms_reports_node_numbers() {
    let mesh = MeshGraph { graph: path_graph() };
    let mut state = AnalyticsState::new();
    let out = run_algorithms(all_flags(), &mesh, &mut state).unwrap();

    assert_eq!(out.ap_result, vec![2]);

    assert_eq!(out.mincut_result.len(), 1);
    let (u, v) = out.mincut_result[0];
    let pair = (u.min(v), u.max(v));
    assert!(pair == (1, 2) || pair == (2, 3));

    // One snapshot: one time step of walk counts, which on the latest
    // snapshot is its adjacency matrix.
    assert_eq!(out.diffcen_result.len(), 3);
    let source = &out.diffcen_result[0];
    assert_eq!(source.node, 1);
    assert_eq!(source.steps.len(), 1);
    assert_eq!(source.steps[0].step, 1);
    let scores: Vec<(u32, u64)> = source.steps[0]
        .targets
        .iter()
        .map(|t| (t.node, t.score))
        .collect();
    assert_eq!(scores, vec![(1, 0), (2, 1), (3, 0)]);
}

#[test]
fn diffusion_counts_walks_over_two_steps() {
    let mesh = MeshGraph { graph: path_graph() };
    let mut state = AnalyticsState::new();
    // Two snapshots: two time steps.
    run_algorithms(all_flags(), &mesh, &mut state).unwrap();
    let out = run_algorithms(all_flags(), &mesh, &mut state).unwrap();

    let source = &out.diffcen_result[0];
    assert_eq!(source.steps.len(), 2);
    assert_eq!(source.steps[1].step, 2);
    // Walks of length 2 from node 1: back to itself through node 2, and
    // across to node 3 through node 2.
    let scores: Vec<(u32, u64)> = source.steps[1]
        .targets
        .iter()
        .map(|t| (t.node, t.score))
        .collect();
    assert_eq!(scores, vec![(1, 1), (2, 0), (3, 1)]);
}

#[test]
fn empty_graph_analytics_yield_empty_not_error() {
    let mesh = MeshGraph::new();
    let mut state = AnalyticsState::new();
    let mut flags = all_flags();
    flags.diffusion_centrality = false;
    let out = run_algorithms(flags, &mesh, &mut state).unwrap();
    assert!(matches!(state.results.aps, APResult::Empty(_)));
    assert!(matches!(state.results.mincut, MinCutResult::Empty(_)));
    assert!(out.ap_result.is_empty());
    assert!(out.mincut_result.is_empty());
}

#[test]
fn single_node_analytics_yield_empty_not_error() {
    let mesh = MeshGraph {
        graph: Graph { nodes: vec![node(1, 10, 10)], edges: vec![] },
    };
    let mut state = AnalyticsState::new();
    run_algorithms(all_flags(), &mesh, &mut state).unwrap();
    assert!(matches!(state.results.aps, APResult::Empty(_)));
    assert!(matches!(state.results.mincut, MinCutResult::Empty(_)));
    // Diffusion centrality ran: one snapshot exists.
    assert!(matches!(state.results.diff_cent, DiffCenResult::Success(_)));
}

#[test]
fn disabled_algorithms_keep_previous_results() {
    let mesh = MeshGraph { graph: path_graph() };
    let mut state = AnalyticsState::new();
    run_algorithms(all_flags(), &mesh, &mut state).unwrap();
    assert!(matches!(state.results.aps, APResult::Success(_)));

    let none = AlgorithmConfigFlags {
        articulation_point: false,
        mincut: false,
        diffusion_centrality: false,
    };
    run_algorithms(none, &mesh, &mut state).unwrap();
    // Nothing was enabled, so the previous results stand.
    assert!(matches!(state.results.aps, APResult::Success(_)));
    assert!(matches!(state.results.mincut, MinCutResult::Success(_)));
}

#[test]
fn snapshots_are_immutable_copies() {
    let mut mesh = MeshGraph { graph: path_graph() };
    let mut state = AnalyticsState::new();
    state.add_graph_snapshot(&mesh.graph);

    // Mutating the live graph afterwards must not change the snapshot.
    mesh.graph.nodes.clear();
    mesh.graph.edges.clear();
    assert_eq!(state.snapshots.len(), 1);
    assert_eq!(state.snapshots[0].nodes.len(), 3);
    assert_eq!(state.snapshots[0].edges.len(), 2);
}

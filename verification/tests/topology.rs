//! Graph regeneration from device state, and the geographic feature
//! filtering.

use meshtopo::device::FromRadioPacket;
use meshtopo::device::MeshDevice;
use meshtopo::device::MyNodeInfo;
use meshtopo::device::NodeInfo;
use meshtopo::device::PositionMetric;
use meshtopo::geo::generate_graph_edges_geojson;
use meshtopo::geo::get_node_edges;
use meshtopo::graph::MeshGraph;
use meshtopo::registry::DeviceRegistry;

fn pos(latitude: i32, longitude: i32, altitude: i32) -> PositionMetric {
    PositionMetric { latitude, longitude, altitude }
}

fn report(device: &mut MeshDevice, num: u32, name: &str, snr: Option<i32>, p: Option<PositionMetric>) {
    device
        .handle_packet_from_radio(
            FromRadioPacket::NodeInfo(NodeInfo {
                num,
                long_name: name.to_string(),
                snr,
                position: p,
            }),
            0,
        )
        .unwrap();
}

fn path_device() -> MeshDevice {
    // The device is node 2; it has heard nodes 1 and 3, so the topology
    // is the path 1 - 2 - 3.
    let mut device = MeshDevice::new(0);
    device
        .handle_packet_from_radio(
            FromRadioPacket::MyNodeInfo(MyNodeInfo { my_node_num: 2 }),
            0,
        )
        .unwrap();
    report(&mut device, 1, "alpha", Some(100), Some(pos(100, 200, 5)));
    report(&mut device, 2, "self", None, Some(pos(110, 210, 6)));
    report(&mut device, 3, "gamma", Some(100), Some(pos(120, 220, 7)));
    device
}

#[test]
fn regenerate_builds_nodes_and_edges() {
    let device = path_device();
    let mut graph = MeshGraph::new();
    graph.regenerate_graph_from_device_info(&device);

    let nums: Vec<u32> = graph.graph.nodes.iter().map(|n| n.num).collect();
    assert_eq!(nums, vec![1, 2, 3]);
    assert_eq!(graph.graph.nodes[0].name, "1");
    assert_eq!(graph.graph.nodes[0].latitude, 100);
    assert_eq!(graph.graph.nodes[0].longitude, 200);

    // One edge per heard node with a known signal ratio: 1-2 and 3-2.
    assert_eq!(graph.graph.edges.len(), 2);
    let pairs: Vec<(usize, usize)> = graph.graph.edges.iter().map(|e| (e.u, e.v)).collect();
    assert_eq!(pairs, vec![(0, 1), (2, 1)]);
    assert_eq!(graph.graph.edges[0].snr, 100);
}

#[test]
fn regenerate_skips_unlocated_and_silent_nodes() {
    let mut device = MeshDevice::new(0);
    device
        .handle_packet_from_radio(
            FromRadioPacket::MyNodeInfo(MyNodeInfo { my_node_num: 2 }),
            0,
        )
        .unwrap();
    report(&mut device, 2, "self", None, Some(pos(110, 210, 6)));
    // No position: not a graph node.
    report(&mut device, 7, "ghost", Some(100), None);
    // No known signal ratio: a node, but no edge.
    report(&mut device, 8, "quiet", None, Some(pos(1, 2, 3)));

    let mut graph = MeshGraph::new();
    graph.regenerate_graph_from_device_info(&device);
    let nums: Vec<u32> = graph.graph.nodes.iter().map(|n| n.num).collect();
    assert_eq!(nums, vec![2, 8]);
    assert!(graph.graph.edges.is_empty());
}

#[test]
fn regenerate_twice_gives_identical_graph() {
    let device = path_device();
    let mut graph = MeshGraph::new();
    graph.regenerate_graph_from_device_info(&device);
    let first_nodes = graph.graph.nodes.clone();
    let first_edges = graph.graph.edges.clone();
    graph.regenerate_graph_from_device_info(&device);
    assert_eq!(graph.graph.nodes, first_nodes);
    assert_eq!(graph.graph.edges, first_edges);
}

#[test]
fn edge_features_filter_zero_coordinates() {
    // Node 9 sits at coordinate (0, 0): its edge must never be emitted.
    let mut device = MeshDevice::new(0);
    device
        .handle_packet_from_radio(
            FromRadioPacket::MyNodeInfo(MyNodeInfo { my_node_num: 2 }),
            0,
        )
        .unwrap();
    report(&mut device, 2, "self", None, Some(pos(110, 210, 6)));
    report(&mut device, 9, "origin", Some(50), Some(pos(0, 0, 0)));
    report(&mut device, 3, "gamma", Some(60), Some(pos(120, 220, 7)));

    let mut graph = MeshGraph::new();
    graph.regenerate_graph_from_device_info(&device);
    assert_eq!(graph.graph.edges.len(), 2);

    let features = generate_graph_edges_geojson(&graph);
    assert_eq!(features.len(), 1);
    let feature = &features[0];
    assert_eq!(feature.id, "3-2");
    assert_eq!(feature.snr, 60);
    assert!(feature.u_longitude != 0 && feature.u_latitude != 0);
    assert!(feature.v_longitude != 0 && feature.v_latitude != 0);
}

#[test]
fn node_features_cover_every_geolocated_node() {
    let mut registry = DeviceRegistry::new();
    let mut device = MeshDevice::new(0);
    report(&mut device, 4, "delta", None, Some(pos(10, 20, 0)));
    report(&mut device, 5, "epsilon", None, None);
    registry.insert("ttyUSB0".to_string(), device);

    let result = get_node_edges(&registry);
    assert_eq!(result.nodes.len(), 1);
    assert_eq!(result.nodes[0].num, 4);
    assert_eq!(result.nodes[0].id, "4");
    assert_eq!(result.nodes[0].latitude, 10);
    assert_eq!(result.nodes[0].longitude, 20);
    // The fully-connected edge view is deliberately empty.
    assert!(result.edges.is_empty());
}

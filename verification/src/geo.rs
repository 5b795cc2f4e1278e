//! Geographic feature data pushed to the UI: one point per geolocated
//! node, one line per edge whose endpoints both have nonzero coordinates.
//!
//! This module produces plain coordinate data; the caller renders it as
//! GeoJSON. Coordinates are scaled integers in units of 1e-7 degrees.

use vstd::prelude::*;
use vstd::string::StringExecFns;

use crate::graph::GraphView;
use crate::graph::MeshGraph;
use crate::registry::DeviceRegistry;
use crate::registry::RegistryEntryView;
use crate::device::MeshNodeView;
use crate::text::decimal_digits;
use crate::text::u32_to_string;

verus! {

/// One line feature for a topology edge: the feature id joins the two
/// node names, and each endpoint carries its full coordinates.
#[derive(Clone, PartialEq, Debug)]
pub struct EdgeFeature {
    pub id: String,
    pub u_longitude: i32,
    pub u_latitude: i32,
    pub u_altitude: i32,
    pub v_longitude: i32,
    pub v_latitude: i32,
    pub v_altitude: i32,
    pub snr: i32,
}

#[verifier::ext_equal]
pub struct EdgeFeatureView {
    pub id: Seq<char>,
    pub u_longitude: i32,
    pub u_latitude: i32,
    pub u_altitude: i32,
    pub v_longitude: i32,
    pub v_latitude: i32,
    pub v_altitude: i32,
    pub snr: i32,
}

impl View for EdgeFeature {
    type V = EdgeFeatureView;

    open spec fn view(&self) -> EdgeFeatureView {
        EdgeFeatureView {
            id: self.id@,
            u_longitude: self.u_longitude,
            u_latitude: self.u_latitude,
            u_altitude: self.u_altitude,
            v_longitude: self.v_longitude,
            v_latitude: self.v_latitude,
            v_altitude: self.v_altitude,
            snr: self.snr,
        }
    }
}

/// One point feature for a geolocated node.
#[derive(Clone, PartialEq, Debug)]
pub struct NodeFeature {
    pub id: String,
    pub num: u32,
    pub longitude: i32,
    pub latitude: i32,
}

#[verifier::ext_equal]
pub struct NodeFeatureView {
    pub id: Seq<char>,
    pub num: u32,
    pub longitude: i32,
    pub latitude: i32,
}

impl View for NodeFeature {
    type V = NodeFeatureView;

    open spec fn view(&self) -> NodeFeatureView {
        NodeFeatureView {
            id: self.id@,
            num: self.num,
            longitude: self.longitude,
            latitude: self.latitude,
        }
    }
}

/// The node and edge feature sets pushed to the map display.
#[derive(Clone, PartialEq, Debug)]
pub struct GraphGeoJSONResult {
    pub nodes: Vec<NodeFeature>,
    pub edges: Vec<EdgeFeature>,
}

/// Whether both endpoints of the edge have nonzero coordinates; an edge
/// with a zero-valued endpoint coordinate is filtered out of the display.
pub open spec fn edge_visible(g: GraphView, k: int) -> bool {
    let u = g.nodes[g.edges[k].u as int];
    let v = g.nodes[g.edges[k].v as int];
    u.longitude != 0 && u.latitude != 0 && v.latitude != 0 && v.longitude != 0
}

/// The feature derived from one edge.
pub open spec fn feature_of_edge(g: GraphView, k: int) -> EdgeFeatureView {
    let u = g.nodes[g.edges[k].u as int];
    let v = g.nodes[g.edges[k].v as int];
    EdgeFeatureView {
        id: u.name + seq!['-'] + v.name,
        u_longitude: u.longitude,
        u_latitude: u.latitude,
        u_altitude: u.altitude,
        v_longitude: v.longitude,
        v_latitude: v.latitude,
        v_altitude: v.altitude,
        snr: g.edges[k].snr,
    }
}

/// The features of the first `k` edges whose endpoints both have nonzero
/// coordinates, in edge order.
pub open spec fn spec_edge_features(g: GraphView, k: int) -> Seq<EdgeFeatureView>
    decreases k,
{
    if k <= 0 {
        Seq::empty()
    } else if edge_visible(g, k - 1) {
        spec_edge_features(g, k - 1).push(feature_of_edge(g, k - 1))
    } else {
        spec_edge_features(g, k - 1)
    }
}

/// No node sitting at a zero coordinate ever appears as an endpoint in
/// the emitted edge features: every emitted endpoint coordinate pair is
/// nonzero.
pub proof fn lemma_edge_features_nonzero(g: GraphView, k: int)
    ensures
        forall|i: int| 0 <= i < spec_edge_features(g, k).len()
            ==> (#[trigger] spec_edge_features(g, k)[i]).u_longitude != 0
                && spec_edge_features(g, k)[i].u_latitude != 0
                && spec_edge_features(g, k)[i].v_longitude != 0
                && spec_edge_features(g, k)[i].v_latitude != 0,
    decreases k,
{
    if k > 0 {
        lemma_edge_features_nonzero(g, k - 1);
        let all = spec_edge_features(g, k);
        let rest = spec_edge_features(g, k - 1);
        assert forall|i: int| 0 <= i < all.len()
            implies (#[trigger] all[i]).u_longitude != 0 && all[i].u_latitude != 0
                && all[i].v_longitude != 0 && all[i].v_latitude != 0 by {
            if i < rest.len() {
                assert(all[i] == rest[i]);
            }
        }
    }
}

/// The edge features of the whole graph: one line feature per edge whose
/// endpoints both have nonzero coordinates, in edge order.
pub fn generate_graph_edges_geojson(graph: &MeshGraph) -> (r: Vec<EdgeFeature>)
    requires
        crate::graph::graph_wf(graph.graph@),
    ensures
        r@.map_values(|f: EdgeFeature| f@)
            == spec_edge_features(graph.graph@, graph.graph@.edges.len() as int),
{
    let g = &graph.graph;
    let total = g.get_edges().len();
    let mut r: Vec<EdgeFeature> = Vec::new();
    let mut at: usize = 0;
    while at < total
        invariant
            crate::graph::graph_wf(g@),
            total == g@.edges.len(),
            at <= total,
            r@.map_values(|f: EdgeFeature| f@) == spec_edge_features(g@, at as int),
        decreases total - at,
    {
        let e = g.get_edges()[at];
        let u = g.get_node(e.u).unwrap();
        let v = g.get_node(e.v).unwrap();
        if u.longitude != 0 && u.latitude != 0 && v.latitude != 0 && v.longitude != 0 {
            let mut id = u.name.clone();
            id.append("-");
            id.append(v.name.as_str());
            let feature = EdgeFeature {
                id: id,
                u_longitude: u.longitude,
                u_latitude: u.latitude,
                u_altitude: u.altitude,
                v_longitude: v.longitude,
                v_latitude: v.latitude,
                v_altitude: v.altitude,
                snr: e.snr,
            };
            proof {
                reveal_strlit("-");
                assert(feature@ =~= feature_of_edge(g@, at as int));
            }
            r.push(feature);
            proof {
                assert(r@.map_values(|f: EdgeFeature| f@)
                    =~= spec_edge_features(g@, at + 1));
            }
        } else {
            proof {
                assert(r@.map_values(|f: EdgeFeature| f@)
                    =~= spec_edge_features(g@, at + 1));
            }
        }
        at = at + 1;
    }
    r
}

/// The node features one device's node table contributes: one point per
/// node with at least one position sample, keyed by the node number, at
/// its most recent position.
pub open spec fn spec_node_features(table: Seq<MeshNodeView>) -> Seq<NodeFeatureView>
    decreases table.len(),
{
    if table.len() == 0 {
        Seq::empty()
    } else {
        let rest = spec_node_features(table.drop_last());
        let e = table.last();
        if e.position_metrics.len() > 0 {
            rest.push(
                NodeFeatureView {
                    id: decimal_digits(e.num as nat),
                    num: e.num,
                    longitude: e.position_metrics.last().longitude,
                    latitude: e.position_metrics.last().latitude,
                },
            )
        } else {
            rest
        }
    }
}

/// The node features of every registered device, in registry order.
pub open spec fn spec_all_node_features(entries: Seq<RegistryEntryView>) -> Seq<NodeFeatureView>
    decreases entries.len(),
{
    if entries.len() == 0 {
        Seq::empty()
    } else {
        spec_all_node_features(entries.drop_last())
            + spec_node_features(entries.last().device.node_table)
    }
}

/// The map-display data derived from every connected device: one point
/// feature per geolocated node. The edge feature set of this view is
/// deliberately empty: it would wrongly draw the devices' nodes as fully
/// connected, and the real edges are pushed by the topology graph path.
pub fn get_node_edges(registry: &DeviceRegistry) -> (r: GraphGeoJSONResult)
    ensures
        r.nodes@.map_values(|f: NodeFeature| f@) == spec_all_node_features(registry@),
        r.edges@.len() == 0,
{
    let mut nodes: Vec<NodeFeature> = Vec::new();
    let mut at: usize = 0;
    while at < registry.entries.len()
        invariant
            at <= registry.entries@.len(),
            registry@.len() == registry.entries@.len(),
            nodes@.map_values(|f: NodeFeature| f@)
                == spec_all_node_features(registry@.subrange(0, at as int)),
        decreases registry.entries@.len() - at,
    {
        let ghost prefix = registry@.subrange(0, at as int);
        proof {
            assert(registry@.subrange(0, at + 1).drop_last() =~= prefix);
            assert(registry@.subrange(0, at + 1).last() == registry@[at as int]);
        }
        let device = &registry.entries[at].device;
        let ghost table = device@.node_table;
        let mut ni: usize = 0;
        while ni < device.node_table.len()
            invariant
                ni <= device.node_table@.len(),
                table == device@.node_table,
                table.len() == device.node_table@.len(),
                nodes@.map_values(|f: NodeFeature| f@)
                    == spec_all_node_features(prefix) + spec_node_features(
                        table.subrange(0, ni as int),
                    ),
            decreases device.node_table@.len() - ni,
        {
            let ghost tprefix = table.subrange(0, ni as int);
            proof {
                assert(table.subrange(0, ni + 1).drop_last() =~= tprefix);
                assert(table.subrange(0, ni + 1).last() == table[ni as int]);
            }
            let entry = &device.node_table[ni];
            proof {
                assert(entry@ == table[ni as int]);
            }
            if entry.position_metrics.len() > 0 {
                let last = entry.position_metrics.len() - 1;
                let sample = entry.position_metrics[last];
                let feature = NodeFeature {
                    id: u32_to_string(entry.num),
                    num: entry.num,
                    longitude: sample.longitude,
                    latitude: sample.latitude,
                };
                proof {
                    assert(feature@ =~= NodeFeatureView {
                        id: decimal_digits(table[ni as int].num as nat),
                        num: table[ni as int].num,
                        longitude: table[ni as int].position_metrics.last().longitude,
                        latitude: table[ni as int].position_metrics.last().latitude,
                    });
                }
                let ghost prev_nodes = nodes@;
                let ghost new_feat = NodeFeatureView {
                    id: decimal_digits(table[ni as int].num as nat),
                    num: table[ni as int].num,
                    longitude: table[ni as int].position_metrics.last().longitude,
                    latitude: table[ni as int].position_metrics.last().latitude,
                };
                nodes.push(feature);
                proof {
                    assert(nodes@.map_values(|f: NodeFeature| f@)
                        =~= prev_nodes.map_values(|f: NodeFeature| f@).push(feature@));
                    assert(spec_node_features(table.subrange(0, ni + 1))
                        == spec_node_features(tprefix).push(new_feat));
                    assert(feature@ == new_feat);
                    assert(nodes@.map_values(|f: NodeFeature| f@)
                        =~= spec_all_node_features(prefix) + spec_node_features(
                            table.subrange(0, ni + 1),
                        ));
                }
            } else {
                proof {
                    assert(nodes@.map_values(|f: NodeFeature| f@)
                        =~= spec_all_node_features(prefix) + spec_node_features(
                            table.subrange(0, ni + 1),
                        ));
                }
            }
            ni = ni + 1;
        }
        proof {
            assert(table.subrange(0, table.len() as int) =~= table);
            assert(nodes@.map_values(|f: NodeFeature| f@)
                =~= spec_all_node_features(registry@.subrange(0, at + 1)));
        }
        at = at + 1;
    }
    proof {
        assert(registry@.subrange(0, registry@.len() as int) =~= registry@);
    }
    GraphGeoJSONResult { nodes: nodes, edges: Vec::new() }
}

} // verus!

//! Cut-vertex detection on a topology snapshot.
//!
//! A vertex is an articulation point when removing it increases the number
//! of connected components. The search computes exactly that set, in
//! ascending vertex order.

use vstd::prelude::*;

use crate::analytics::connectivity::count_components_avoiding;
use crate::analytics::connectivity::num_components;
use crate::analytics::connectivity::num_components_avoiding;
use crate::graph::Graph;
use crate::graph::GraphView;
use crate::graph::graph_wf;

verus! {

/// Whether removing the vertex disconnects the component it belongs to.
pub open spec fn is_articulation_point(g: GraphView, v: int) -> bool {
    &&& 0 <= v < g.nodes.len()
    &&& num_components_avoiding(g, v) > num_components(g)
}

/// The articulation points of the snapshot, in ascending vertex order:
/// exactly the vertices whose removal increases the number of connected
/// components.
pub fn articulation_points(g: &Graph) -> (r: Vec<usize>)
    requires
        graph_wf(g@),
    ensures
        forall|k: int| 0 <= k < r.len()
            ==> is_articulation_point(g@, (#[trigger] r[k]) as int),
        forall|k1: int, k2: int| 0 <= k1 < k2 < r.len() ==> r[k1] < r[k2],
        forall|v: int| 0 <= v < g@.nodes.len() && is_articulation_point(g@, v)
            ==> r@.contains(v as usize),
{
    let n = g.node_count();
    let base = count_components_avoiding(g, n);
    let mut result: Vec<usize> = Vec::new();
    let mut v: usize = 0;
    while v < n
        invariant
            graph_wf(g@),
            n == g@.nodes.len(),
            v <= n,
            base == num_components(g@),
            forall|k: int| 0 <= k < result.len()
                ==> (#[trigger] result[k]) < v
                    && is_articulation_point(g@, result[k] as int),
            forall|k1: int, k2: int| 0 <= k1 < k2 < result.len()
                ==> result[k1] < result[k2],
            forall|x: int| 0 <= x < v && is_articulation_point(g@, x)
                ==> result@.contains(x as usize),
        decreases n - v,
    {
        let without_v = count_components_avoiding(g, v);
        if without_v > base {
            let ghost prev = result@;
            result.push(v);
            proof {
                assert(result@[result@.len() - 1] == v);
                assert(result@.contains(v));
                assert forall|x: usize| prev.contains(x)
                    implies result@.contains(x) by {
                    let k = choose|k: int| 0 <= k < prev.len() && prev[k] == x;
                    assert(result@[k] == x);
                }
            }
        }
        v = v + 1;
    }
    result
}

} // verus!

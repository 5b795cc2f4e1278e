//! Connectivity over a topology snapshot: reachability with an optional
//! removed vertex, and the number of connected components.
//!
//! Connectivity is specified by the existence of a path and computed by a
//! verified search whose result is proved equal to that specification in
//! both directions. Component counting and cut-vertex detection are built
//! directly on it.

use vstd::prelude::*;

use crate::graph::Graph;
use crate::graph::GraphView;
use crate::graph::graph_wf;

verus! {

/// Whether some edge of the snapshot joins the two vertices.
pub open spec fn adjacent(g: GraphView, a: int, b: int) -> bool {
    exists|i: int| 0 <= i < g.edges.len()
        && ((g.edges[i].u == a && g.edges[i].v == b)
            || (g.edges[i].u == b && g.edges[i].v == a))
}

/// Whether `p` is a path through the snapshot that never touches the
/// vertex `skip`. Passing a `skip` outside the vertex range removes
/// nothing.
pub open spec fn is_path_avoiding(g: GraphView, skip: int, p: Seq<int>) -> bool {
    &&& p.len() >= 1
    &&& forall|i: int| 0 <= i < p.len()
        ==> 0 <= #[trigger] p[i] < g.nodes.len() && p[i] != skip
    &&& forall|i: int| 0 <= i < p.len() - 1 ==> adjacent(g, #[trigger] p[i], p[i + 1])
}

/// Whether `b` can be reached from `a` without touching `skip`.
pub open spec fn connected_avoiding(g: GraphView, skip: int, a: int, b: int) -> bool {
    exists|p: Seq<int>|
        is_path_avoiding(g, skip, p) && p.first() == a && p.last() == b
}

/// A vertex reaches itself.
pub proof fn lemma_connected_self(g: GraphView, skip: int, a: int)
    requires
        0 <= a < g.nodes.len(),
        a != skip,
    ensures
        connected_avoiding(g, skip, a, a),
{
    let p = seq![a];
    assert(is_path_avoiding(g, skip, p));
    assert(p.first() == a && p.last() == a);
}

/// Reachability extends along an edge.
pub proof fn lemma_connected_step(g: GraphView, skip: int, a: int, b: int, c: int)
    requires
        connected_avoiding(g, skip, a, b),
        adjacent(g, b, c),
        0 <= c < g.nodes.len(),
        c != skip,
    ensures
        connected_avoiding(g, skip, a, c),
{
    let p = choose|p: Seq<int>|
        is_path_avoiding(g, skip, p) && p.first() == a && p.last() == b;
    let q = p.push(c);
    assert forall|i: int| 0 <= i < q.len() - 1
        implies adjacent(g, #[trigger] q[i], q[i + 1]) by {
        if i < p.len() - 1 {
            assert(q[i] == p[i] && q[i + 1] == p[i + 1]);
        } else {
            assert(q[i] == p.last() && q[i + 1] == c);
        }
    }
    assert(is_path_avoiding(g, skip, q));
    assert(q.first() == a && q.last() == c);
}

/// A set of vertices closed under adjacency contains every vertex
/// reachable from any of its members: no path leaves it.
proof fn lemma_path_stays_in_closed_set(g: GraphView, skip: int, visited: Seq<bool>, p: Seq<int>)
    requires
        visited.len() == g.nodes.len(),
        forall|u: int, v: int|
            0 <= u < g.nodes.len() && 0 <= v < g.nodes.len() && visited[u]
                && #[trigger] adjacent(g, u, v) && v != skip ==> visited[v],
        is_path_avoiding(g, skip, p),
        visited[p.first()],
    ensures
        visited[p.last()],
    decreases p.len(),
{
    if p.len() > 1 {
        let q = p.drop_last();
        assert forall|i: int| 0 <= i < q.len() - 1
            implies adjacent(g, #[trigger] q[i], q[i + 1]) by {
            assert(q[i] == p[i] && q[i + 1] == p[i + 1]);
        }
        assert(is_path_avoiding(g, skip, q));
        assert(q.first() == p.first());
        lemma_path_stays_in_closed_set(g, skip, visited, q);
        assert(adjacent(g, p[p.len() - 2], p[p.len() - 1]));
    }
}

/// How many entries of a mask are still false.
pub open spec fn count_false(s: Seq<bool>) -> nat
    decreases s.len(),
{
    if s.len() == 0 {
        0
    } else {
        count_false(s.drop_last()) + if s.last() {
            0nat
        } else {
            1nat
        }
    }
}

/// Setting a false entry true lowers the count of false entries by one.
proof fn lemma_count_false_update(s: Seq<bool>, i: int)
    requires
        0 <= i < s.len(),
        !s[i],
    ensures
        count_false(s.update(i, true)) + 1 == count_false(s),
    decreases s.len(),
{
    let t = s.update(i, true);
    if i == s.len() - 1 {
        assert(t.drop_last() =~= s.drop_last());
    } else {
        assert(t.drop_last() =~= s.drop_last().update(i, true));
        lemma_count_false_update(s.drop_last(), i);
        assert(t.last() == s.last());
    }
}

/// The vertices reachable from `src` without touching the vertex `skip`,
/// as a mask over vertex indexes. A `skip` outside the vertex range
/// removes nothing.
pub fn reachable_set(g: &Graph, src: usize, skip: usize) -> (r: Vec<bool>)
    requires
        graph_wf(g@),
        src < g@.nodes.len(),
        src != skip,
    ensures
        r.len() == g@.nodes.len(),
        forall|u: int| 0 <= u < g@.nodes.len()
            ==> (r[u] <==> connected_avoiding(g@, skip as int, src as int, u)),
{
    let n = g.node_count();
    let mut visited: Vec<bool> = Vec::new();
    let mut fill: usize = 0;
    while fill < n
        invariant
            fill <= n,
            visited.len() == fill,
            forall|u: int| 0 <= u < fill ==> !visited[u],
        decreases n - fill,
    {
        visited.push(false);
        fill = fill + 1;
    }

    let mut queue: Vec<usize> = Vec::new();
    visited[src] = true;
    queue.push(src);
    proof {
        lemma_connected_self(g@, skip as int, src as int);
        assert(queue@[0] == src);
        assert(queue@.contains(src));
    }

    while queue.len() > 0
        invariant
            graph_wf(g@),
            src < g@.nodes.len(),
            src != skip,
            visited.len() == g@.nodes.len(),
            visited[src as int],
            forall|k: int| 0 <= k < queue.len()
                ==> (#[trigger] queue[k]) < g@.nodes.len() && queue[k] != skip
                    && visited[queue[k] as int],
            forall|u: int| 0 <= u < g@.nodes.len() && visited[u]
                ==> connected_avoiding(g@, skip as int, src as int, u),
            forall|u: int, v: int|
                0 <= u < g@.nodes.len() && 0 <= v < g@.nodes.len() && visited[u]
                    && !queue@.contains(u as usize) && #[trigger] adjacent(g@, u, v)
                    && v != skip ==> visited[v],
        decreases count_false(visited@), queue.len(),
    {
        let ghost visited_at_pop = visited@;
        let ghost queue_before = queue@;
        let cur = queue.pop().unwrap();
        let ghost queue_after_pop = queue@;
        proof {
            assert forall|x: usize| queue_before.contains(x) && x != cur
                implies queue@.contains(x) by {
                let k = choose|k: int|
                    0 <= k < queue_before.len() && queue_before[k] == x;
                assert(queue@[k] == x);
            }
        }
        let edge_total = g.get_edges().len();
        let mut j: usize = 0;
        while j < edge_total
            invariant
                graph_wf(g@),
                src < g@.nodes.len(),
                src != skip,
                edge_total == g@.edges.len(),
                j <= edge_total,
                cur < g@.nodes.len(),
                cur != skip,
                visited.len() == g@.nodes.len(),
                visited[src as int],
                visited[cur as int],
                count_false(visited@) <= count_false(visited_at_pop),
                queue@.len() >= queue_after_pop.len(),
                count_false(visited@) < count_false(visited_at_pop)
                    || queue@ == queue_after_pop,
                forall|k: int| 0 <= k < queue.len()
                    ==> (#[trigger] queue[k]) < g@.nodes.len() && queue[k] != skip
                        && visited[queue[k] as int],
                forall|u: int| 0 <= u < g@.nodes.len() && visited[u]
                    ==> connected_avoiding(g@, skip as int, src as int, u),
                forall|u: int, v: int|
                    0 <= u < g@.nodes.len() && 0 <= v < g@.nodes.len() && visited[u]
                        && u != cur as int && !queue@.contains(u as usize)
                        && #[trigger] adjacent(g@, u, v) && v != skip ==> visited[v],
                forall|e: int| 0 <= e < j
                    ==> ((#[trigger] g@.edges[e]).u == cur as int
                            && g@.edges[e].v != skip as int ==> visited[g@.edges[e].v as int])
                        && (g@.edges[e].v == cur as int && g@.edges[e].u != skip as int
                            ==> visited[g@.edges[e].u as int]),
            decreases edge_total - j,
        {
            let e = g.get_edges()[j];
            let other: usize = if e.u == cur {
                e.v
            } else if e.v == cur {
                e.u
            } else {
                cur
            };
            if other != cur && other != skip && !visited[other] {
                proof {
                    assert(adjacent(g@, cur as int, other as int));
                    lemma_connected_step(
                        g@,
                        skip as int,
                        src as int,
                        cur as int,
                        other as int,
                    );
                    lemma_count_false_update(visited@, other as int);
                }
                let ghost queue_prev = queue@;
                visited[other] = true;
                queue.push(other);
                proof {
                    assert(queue@[queue@.len() - 1] == other);
                    assert(queue@.contains(other));
                    assert forall|x: usize| queue_prev.contains(x)
                        implies queue@.contains(x) by {
                        let k = choose|k: int|
                            0 <= k < queue_prev.len() && queue_prev[k] == x;
                        assert(queue@[k] == x);
                    }
                }
            }
            j = j + 1;
        }
    }

    proof {
        assert forall|u: int| 0 <= u < g@.nodes.len()
            && connected_avoiding(g@, skip as int, src as int, u)
            implies visited@[u] by {
            let p = choose|p: Seq<int>|
                is_path_avoiding(g@, skip as int, p) && p.first() == src as int
                    && p.last() == u;
            lemma_path_stays_in_closed_set(g@, skip as int, visited@, p);
        }
    }
    visited
}

// ---------------------------------------------------------------------------
// Component counting
// ---------------------------------------------------------------------------

/// A vertex is its component's representative when no lower vertex can
/// reach it; counting representatives counts the components.
pub open spec fn is_component_rep(g: GraphView, skip: int, v: int) -> bool {
    &&& 0 <= v < g.nodes.len()
    &&& v != skip
    &&& forall|u: int| 0 <= u < v && u != skip
        ==> !connected_avoiding(g, skip, v, u)
}

/// Number of component representatives among the vertices below `m`.
pub open spec fn count_reps_below(g: GraphView, skip: int, m: int) -> int
    decreases m,
{
    if m <= 0 {
        0
    } else {
        count_reps_below(g, skip, m - 1) + if is_component_rep(g, skip, m - 1) {
            1int
        } else {
            0int
        }
    }
}

/// Number of connected components after removing the vertex `skip`. A
/// `skip` outside the vertex range removes nothing.
pub open spec fn num_components_avoiding(g: GraphView, skip: int) -> int {
    count_reps_below(g, skip, g.nodes.len() as int)
}

/// Number of connected components of the whole snapshot.
pub open spec fn num_components(g: GraphView) -> int {
    num_components_avoiding(g, g.nodes.len() as int)
}

proof fn lemma_count_reps_bound(g: GraphView, skip: int, m: int)
    requires
        m >= 0,
    ensures
        0 <= count_reps_below(g, skip, m) <= m,
    decreases m,
{
    if m > 0 {
        lemma_count_reps_bound(g, skip, m - 1);
    }
}

/// Count the connected components that remain after removing the vertex
/// `skip`. A `skip` outside the vertex range removes nothing.
pub fn count_components_avoiding(g: &Graph, skip: usize) -> (r: usize)
    requires
        graph_wf(g@),
    ensures
        r == num_components_avoiding(g@, skip as int),
{
    let n = g.node_count();
    let mut count: usize = 0;
    let mut v: usize = 0;
    while v < n
        invariant
            graph_wf(g@),
            n == g@.nodes.len(),
            v <= n,
            count <= v,
            count == count_reps_below(g@, skip as int, v as int),
        decreases n - v,
    {
        if v != skip {
            let reach = reachable_set(g, v, skip);
            let mut rep: bool = true;
            let mut u: usize = 0;
            while u < v
                invariant
                    graph_wf(g@),
                    n == g@.nodes.len(),
                    u <= v,
                    v < n,
                    v != skip,
                    reach.len() == n,
                    forall|x: int| 0 <= x < n
                        ==> (reach[x] <==> connected_avoiding(
                            g@,
                            skip as int,
                            v as int,
                            x,
                        )),
                    rep <==> (forall|x: int| 0 <= x < u && x != skip as int
                        ==> !connected_avoiding(g@, skip as int, v as int, x)),
                decreases v - u,
            {
                if u != skip && reach[u] {
                    rep = false;
                }
                u = u + 1;
            }
            proof {
                assert(rep == is_component_rep(g@, skip as int, v as int));
            }
            if rep {
                count = count + 1;
            }
        } else {
            proof {
                assert(!is_component_rep(g@, skip as int, v as int));
            }
        }
        v = v + 1;
    }
    count
}

} // verus!

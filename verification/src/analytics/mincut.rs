//! Global minimum edge cut of a topology snapshot, by the Stoer-Wagner
//! minimum-cut-phase scheme.
//!
//! Each phase orders the remaining super-vertices by maximum adjacency,
//! records the cut that isolates the last vertex added, and merges the
//! last two; the best cut of any phase is returned as the edge set
//! crossing its partition. What is proved of the result: it is exactly
//! the set of edges of the snapshot crossing a nontrivial partition of
//! its vertices. Weight sums saturate at the `i64` range bounds, which
//! can only affect which of the candidate cuts is preferred.

use vstd::prelude::*;

use crate::graph::Graph;
use crate::graph::GraphEdge;
use crate::graph::GraphView;
use crate::graph::graph_wf;

verus! {

/// An `int` clamped into the `i64` range.
pub open spec fn sat_i64(x: int) -> int {
    if x > i64::MAX {
        i64::MAX as int
    } else if x < i64::MIN {
        i64::MIN as int
    } else {
        x
    }
}

/// Saturating addition on `i64`.
fn sat_add_i64(a: i64, b: i64) -> (r: i64)
    ensures
        r as int == sat_i64(a + b),
{
    match a.checked_add(b) {
        Some(v) => v,
        None => {
            if b > 0 {
                i64::MAX
            } else {
                i64::MIN
            }
        },
    }
}

/// How many entries of a mask are true.
pub open spec fn count_true(s: Seq<bool>) -> nat
    decreases s.len(),
{
    if s.len() == 0 {
        0
    } else {
        count_true(s.drop_last()) + if s.last() {
            1nat
        } else {
            0nat
        }
    }
}

/// Setting a true entry false lowers the count of true entries by one.
proof fn lemma_count_true_clear(s: Seq<bool>, i: int)
    requires
        0 <= i < s.len(),
        s[i],
    ensures
        count_true(s.update(i, false)) + 1 == count_true(s),
    decreases s.len(),
{
    let t = s.update(i, false);
    if i == s.len() - 1 {
        assert(t.drop_last() =~= s.drop_last());
    } else {
        assert(t.drop_last() =~= s.drop_last().update(i, false));
        lemma_count_true_clear(s.drop_last(), i);
        assert(t.last() == s.last());
    }
}

/// How many entries of a mask are false.
pub open spec fn count_false_mask(s: Seq<bool>) -> nat
    decreases s.len(),
{
    if s.len() == 0 {
        0
    } else {
        count_false_mask(s.drop_last()) + if s.last() {
            0nat
        } else {
            1nat
        }
    }
}

/// Setting a false entry true lowers the count of false entries by one.
proof fn lemma_count_false_mask_set(s: Seq<bool>, i: int)
    requires
        0 <= i < s.len(),
        !s[i],
    ensures
        count_false_mask(s.update(i, true)) + 1 == count_false_mask(s),
    decreases s.len(),
{
    let t = s.update(i, true);
    if i == s.len() - 1 {
        assert(t.drop_last() =~= s.drop_last());
    } else {
        assert(t.drop_last() =~= s.drop_last().update(i, true));
        lemma_count_false_mask_set(s.drop_last(), i);
        assert(t.last() == s.last());
    }
}

/// A mask that is true everywhere has as many true entries as entries.
proof fn lemma_count_true_all(s: Seq<bool>)
    requires
        forall|i: int| 0 <= i < s.len() ==> s[i],
    ensures
        count_true(s) == s.len(),
    decreases s.len(),
{
    if s.len() > 0 {
        lemma_count_true_all(s.drop_last());
    }
}

/// A mask with at least one true entry has a true position.
proof fn lemma_one_live_vertex(active: Seq<bool>)
    requires
        count_true(active) >= 1,
    ensures
        exists|i: int| 0 <= i < active.len() && active[i],
    decreases active.len(),
{
    if active.len() > 0 {
        if active.last() {
            assert(active[active.len() - 1]);
        } else {
            lemma_one_live_vertex(active.drop_last());
            let i = choose|i: int|
                0 <= i < active.drop_last().len() && active.drop_last()[i];
            assert(active[i]);
        }
    }
}

/// A mask with at least two true entries has two distinct true positions.
proof fn lemma_two_live_vertices(active: Seq<bool>)
    requires
        count_true(active) >= 2,
    ensures
        exists|i1: int, i2: int|
            0 <= i1 < active.len() && 0 <= i2 < active.len() && i1 != i2
                && active[i1] && active[i2],
{
    lemma_one_live_vertex(active);
    let i1 = choose|i: int| 0 <= i < active.len() && active[i];
    lemma_count_true_clear(active, i1);
    let cleared = active.update(i1, false);
    lemma_one_live_vertex(cleared);
    let i2 = choose|i: int| 0 <= i < cleared.len() && cleared[i];
    assert(i2 != i1);
    assert(active[i2]);
    assert(0 <= i1 < active.len() && 0 <= i2 < active.len() && i1 != i2
        && active[i1] && active[i2]);
}

/// A vector holding `n` copies of one value.
fn filled<T: Copy>(value: T, n: usize) -> (r: Vec<T>)
    ensures
        r@.len() == n,
        forall|i: int| 0 <= i < n ==> r@[i] == value,
{
    let mut r: Vec<T> = Vec::new();
    let mut at: usize = 0;
    while at < n
        invariant
            at <= n,
            r@.len() == at,
            forall|i: int| 0 <= i < at ==> r@[i] == value,
        decreases n - at,
    {
        r.push(value);
        at = at + 1;
    }
    r
}

/// An exact copy of a mask.
fn clone_mask(v: &Vec<bool>) -> (r: Vec<bool>)
    ensures
        r@ == v@,
{
    let mut r: Vec<bool> = Vec::new();
    let mut at: usize = 0;
    while at < v.len()
        invariant
            at <= v@.len(),
            r@.len() == at,
            forall|i: int| 0 <= i < at ==> r@[i] == v@[i],
        decreases v@.len() - at,
    {
        r.push(v[at]);
        at = at + 1;
    }
    proof {
        assert(r@ =~= v@);
    }
    r
}

/// The pointwise disjunction of two masks of equal length.
fn merge_masks(a: &Vec<bool>, b: &Vec<bool>) -> (r: Vec<bool>)
    requires
        a@.len() == b@.len(),
    ensures
        r@.len() == a@.len(),
        forall|i: int| 0 <= i < a@.len() ==> r@[i] == (a@[i] || b@[i]),
{
    let mut r: Vec<bool> = Vec::new();
    let mut at: usize = 0;
    while at < a.len()
        invariant
            a@.len() == b@.len(),
            at <= a@.len(),
            r@.len() == at,
            forall|i: int| 0 <= i < at ==> r@[i] == (a@[i] || b@[i]),
        decreases a@.len() - at,
    {
        r.push(a[at] || b[at]);
        at = at + 1;
    }
    r
}

/// The live, not-yet-added vertex most tightly connected to the set
/// already added, or the vertex count when every live vertex is added.
fn pick_next(active: &Vec<bool>, added: &Vec<bool>, wsum: &Vec<i64>) -> (r: usize)
    requires
        active@.len() == added@.len(),
        active@.len() == wsum@.len(),
    ensures
        r <= active@.len(),
        r < active@.len() ==> active@[r as int] && !added@[r as int],
        r == active@.len() ==> forall|x: int|
            0 <= x < active@.len() && active@[x] ==> added@[x],
{
    let n = active.len();
    let mut pick: usize = n;
    let mut pick_w: i64 = 0;
    let mut scan: usize = 0;
    while scan < n
        invariant
            n == active@.len(),
            active@.len() == added@.len(),
            active@.len() == wsum@.len(),
            scan <= n,
            pick <= n,
            pick < n ==> active@[pick as int] && !added@[pick as int],
            pick == n ==> forall|x: int| 0 <= x < scan && active@[x] ==> added@[x],
        decreases n - scan,
    {
        if active[scan] && !added[scan] {
            if pick == n || wsum[scan] > pick_w {
                pick = scan;
                pick_w = wsum[scan];
            }
        }
        scan = scan + 1;
    }
    pick
}

/// Whether the edge crosses the partition the mask describes.
pub open spec fn crosses(side: Seq<bool>, e: GraphEdge) -> bool {
    side[e.u as int] != side[e.v as int]
}

/// A mask over the snapshot's vertices with both sides inhabited.
pub open spec fn nontrivial_partition(g: GraphView, side: Seq<bool>) -> bool {
    &&& side.len() == g.nodes.len()
    &&& exists|i: int| 0 <= i < side.len() && side[i]
    &&& exists|i: int| 0 <= i < side.len() && !side[i]
}

/// The edges of the snapshot crossing the partition, in edge order.
fn crossing_edges(g: &Graph, side: &Vec<bool>) -> (r: Vec<GraphEdge>)
    requires
        graph_wf(g@),
        side@.len() == g@.nodes.len(),
    ensures
        forall|k: int| 0 <= k < r.len()
            ==> g@.edges.contains(#[trigger] r[k]) && crosses(side@, r[k]),
        forall|e: int| 0 <= e < g@.edges.len() && crosses(side@, #[trigger] g@.edges[e])
            ==> r@.contains(g@.edges[e]),
{
    let total = g.get_edges().len();
    let mut r: Vec<GraphEdge> = Vec::new();
    let mut at: usize = 0;
    while at < total
        invariant
            graph_wf(g@),
            side@.len() == g@.nodes.len(),
            total == g@.edges.len(),
            at <= total,
            forall|k: int| 0 <= k < r.len()
                ==> g@.edges.contains(#[trigger] r[k]) && crosses(side@, r[k]),
            forall|e: int| 0 <= e < at && crosses(side@, #[trigger] g@.edges[e])
                ==> r@.contains(g@.edges[e]),
        decreases total - at,
    {
        let e = g.get_edges()[at];
        if side[e.u] != side[e.v] {
            let ghost prev = r@;
            r.push(e);
            proof {
                assert(r@[r@.len() - 1] == e);
                assert(r@.contains(e));
                assert(g@.edges[at as int] == e);
                assert(g@.edges.contains(e));
                assert forall|x: GraphEdge| prev.contains(x) implies r@.contains(x) by {
                    let k = choose|k: int| 0 <= k < prev.len() && prev[k] == x;
                    assert(r@[k] == x);
                }
            }
        }
        at = at + 1;
    }
    r
}

/// The global minimum cut search. Returns the edges crossing the best
/// cut-of-the-phase partition found: exactly the edges of the snapshot
/// joining the two sides of a nontrivial partition of its vertices.
pub fn stoer_wagner_min_cut(g: &Graph) -> (r: Vec<GraphEdge>)
    requires
        graph_wf(g@),
        g@.nodes.len() >= 2,
    ensures
        exists|side: Seq<bool>|
            nontrivial_partition(g@, side)
                && (forall|k: int| 0 <= k < r.len()
                    ==> g@.edges.contains(#[trigger] r[k]) && crosses(side, r[k]))
                && (forall|e: int| 0 <= e < g@.edges.len()
                    && crosses(side, #[trigger] g@.edges[e]) ==> r@.contains(g@.edges[e])),
{
    let n = g.node_count();

    // Accumulated weights between super-vertices.
    let mut w: Vec<Vec<i64>> = Vec::new();
    let mut row: usize = 0;
    while row < n
        invariant
            row <= n,
            w@.len() == row,
            forall|i: int| 0 <= i < row ==> (#[trigger] w@[i])@.len() == n,
        decreases n - row,
    {
        w.push(filled(0i64, n));
        row = row + 1;
    }
    let edge_total = g.get_edges().len();
    let mut at: usize = 0;
    while at < edge_total
        invariant
            graph_wf(g@),
            edge_total == g@.edges.len(),
            at <= edge_total,
            n == g@.nodes.len(),
            w@.len() == n,
            forall|i: int| 0 <= i < n ==> (#[trigger] w@[i])@.len() == n,
        decreases edge_total - at,
    {
        let e = g.get_edges()[at];
        let ghost w_prev = w@;
        let duv = sat_add_i64(w[e.u][e.v], e.snr as i64);
        w[e.u][e.v] = duv;
        proof {
            assert forall|i: int| 0 <= i < n
                implies (#[trigger] w@[i])@.len() == n by {
                if i != e.u as int {
                    assert(w@[i] == w_prev[i]);
                }
            }
        }
        let ghost w_mid = w@;
        let dvu = sat_add_i64(w[e.v][e.u], e.snr as i64);
        w[e.v][e.u] = dvu;
        proof {
            assert forall|i: int| 0 <= i < n
                implies (#[trigger] w@[i])@.len() == n by {
                if i != e.v as int {
                    assert(w@[i] == w_mid[i]);
                }
            }
        }
        at = at + 1;
    }

    // Super-vertex bookkeeping: which are live, the set of original
    // vertices each absorbed, and one known member of each.
    let mut active: Vec<bool> = filled(true, n);
    let mut groups: Vec<Vec<bool>> = Vec::new();
    let mut rep: Vec<usize> = Vec::new();
    let mut init: usize = 0;
    while init < n
        invariant
            init <= n,
            groups@.len() == init,
            rep@.len() == init,
            forall|i: int| 0 <= i < init ==> (#[trigger] groups@[i])@.len() == n,
            forall|i: int| 0 <= i < init ==> (#[trigger] rep@[i]) < n,
            forall|i: int| 0 <= i < init ==> (#[trigger] groups@[i])@[rep@[i] as int],
            forall|i: int, x: int| #![trigger groups@[i]@[x]] 0 <= i < init
                && 0 <= x < n ==> (groups@[i]@[x] <==> x == i),
        decreases n - init,
    {
        let mut mask = filled(false, n);
        mask[init] = true;
        groups.push(mask);
        rep.push(init);
        init = init + 1;
    }

    let mut best_side: Vec<bool> = Vec::new();
    let mut best_weight: i64 = 0;
    let mut have_best: bool = false;

    proof {
        lemma_count_true_all(active@);
    }
    loop
        invariant
            graph_wf(g@),
            n == g@.nodes.len(),
            n >= 2,
            w@.len() == n,
            forall|i: int| 0 <= i < n ==> (#[trigger] w@[i])@.len() == n,
            active@.len() == n,
            groups@.len() == n,
            rep@.len() == n,
            forall|i: int| 0 <= i < n ==> (#[trigger] groups@[i])@.len() == n,
            forall|i: int| 0 <= i < n ==> (#[trigger] rep@[i]) < n,
            forall|i: int| 0 <= i < n && active@[i]
                ==> (#[trigger] groups@[i])@[rep@[i] as int],
            forall|i: int, j: int, x: int| #![trigger groups@[i]@[x], groups@[j]@[x]]
                0 <= i < n && 0 <= j < n && i != j && active@[i] && active@[j]
                    && 0 <= x < n
                    ==> !(groups@[i]@[x] && groups@[j]@[x]),
            have_best || count_true(active@) == n,
            have_best ==> best_side@.len() == n
                && (exists|i: int| 0 <= i < n && best_side@[i])
                && (exists|i: int| 0 <= i < n && !best_side@[i]),
        ensures
            have_best,
        decreases count_true(active@),
    {
        let live = count_true_entries(&active);
        if live <= 1 {
            break;
        }

        // Maximum-adjacency ordering of the live super-vertices.
        let mut added: Vec<bool> = filled(false, n);
        let mut wsum: Vec<i64> = filled(0i64, n);
        let mut order: Vec<usize> = Vec::new();
        let mut pick = pick_next(&active, &added, &wsum);
        while pick < n
            invariant
                n == g@.nodes.len(),
                w@.len() == n,
                forall|i: int| 0 <= i < n ==> (#[trigger] w@[i])@.len() == n,
                active@.len() == n,
                added@.len() == n,
                wsum@.len() == n,
                pick <= n,
                pick < n ==> active@[pick as int] && !added@[pick as int],
                pick == n ==> forall|x: int| 0 <= x < n && active@[x] ==> added@[x],
                forall|k: int| 0 <= k < order.len()
                    ==> (#[trigger] order[k]) < n && active@[order[k] as int]
                        && added@[order[k] as int],
                forall|x: int| 0 <= x < n && added@[x]
                    ==> active@[x] && order@.contains(x as usize),
                forall|k1: int, k2: int| 0 <= k1 < k2 < order.len()
                    ==> order[k1] != order[k2],
            decreases count_false_mask(added@),
        {
            let ghost added_prev = added@;
            let ghost order_prev = order@;
            added[pick] = true;
            order.push(pick);
            proof {
                lemma_count_false_mask_set(added_prev, pick as int);
                assert(order@[order@.len() - 1] == pick);
                assert(order@.contains(pick));
                assert forall|x: int| 0 <= x < n && added@[x]
                    implies active@[x] && order@.contains(x as usize) by {
                    if x != pick as int {
                        assert(added_prev[x]);
                        let k = choose|k: int|
                            0 <= k < order_prev.len() && order_prev[k] == x as usize;
                        assert(order@[k] == x as usize);
                    }
                }
            }
            let chosen = pick;
            let mut upd: usize = 0;
            while upd < n
                invariant
                    n == g@.nodes.len(),
                    w@.len() == n,
                    forall|i: int| 0 <= i < n ==> (#[trigger] w@[i])@.len() == n,
                    active@.len() == n,
                    added@.len() == n,
                    wsum@.len() == n,
                    upd <= n,
                    chosen < n,
                decreases n - upd,
            {
                if active[upd] && !added[upd] {
                    let nw = sat_add_i64(wsum[upd], w[chosen][upd]);
                    wsum[upd] = nw;
                }
                upd = upd + 1;
            }
            pick = pick_next(&active, &added, &wsum);
        }

        // With at least two live super-vertices, the ordering holds at
        // least two entries: the cut of this phase isolates the last one
        // added.
        proof {
            lemma_two_live_vertices(active@);
            let (i1, i2) = choose|i1: int, i2: int|
                0 <= i1 < active@.len() && 0 <= i2 < active@.len() && i1 != i2
                    && active@[i1] && active@[i2];
            assert(added@[i1] && added@[i2]);
            assert(order@.contains(i1 as usize));
            assert(order@.contains(i2 as usize));
            let k1 = choose|k: int| 0 <= k < order@.len() && order@[k] == i1 as usize;
            let k2 = choose|k: int| 0 <= k < order@.len() && order@[k] == i2 as usize;
            assert(k1 != k2);
            assert(order@.len() >= 2);
        }
        let t = order[order.len() - 1];
        let s = order[order.len() - 2];
        proof {
            assert(order@[order@.len() - 1] == t && order@[order@.len() - 2] == s);
            assert(s != t);
            assert(s < n && t < n && active@[s as int] && active@[t as int]);
        }
        let phase_weight = wsum[t];

        if !have_best || phase_weight < best_weight {
            best_side = clone_mask(&groups[t]);
            best_weight = phase_weight;
            have_best = true;
            proof {
                assert(best_side@[rep@[t as int] as int]);
                let y = rep@[s as int] as int;
                assert(groups@[s as int]@[y]);
                assert(!(groups@[s as int]@[y] && groups@[t as int]@[y]));
                assert(!best_side@[y]);
            }
        }

        // Merge the last vertex of the phase into the one added before it.
        let mut mg: usize = 0;
        while mg < n
            invariant
                n == g@.nodes.len(),
                w@.len() == n,
                forall|i: int| 0 <= i < n ==> (#[trigger] w@[i])@.len() == n,
                mg <= n,
                s < n,
                t < n,
                s != t,
            decreases n - mg,
        {
            let ghost w_prev = w@;
            let nw = sat_add_i64(w[s][mg], w[t][mg]);
            w[s][mg] = nw;
            proof {
                assert forall|i: int| 0 <= i < n
                    implies (#[trigger] w@[i])@.len() == n by {
                    if i != s as int {
                        assert(w@[i] == w_prev[i]);
                    }
                }
            }
            let ghost w_mid = w@;
            let nw2 = sat_add_i64(w[mg][s], w[mg][t]);
            w[mg][s] = nw2;
            proof {
                assert forall|i: int| 0 <= i < n
                    implies (#[trigger] w@[i])@.len() == n by {
                    if i != mg as int {
                        assert(w@[i] == w_mid[i]);
                    }
                }
            }
            mg = mg + 1;
        }
        let ghost groups_prev = groups@;
        let merged = merge_masks(&groups[s], &groups[t]);
        groups[s] = merged;
        let ghost active_prev = active@;
        active[t] = false;
        proof {
            lemma_count_true_clear(active_prev, t as int);
            assert forall|i: int| 0 <= i < n
                implies (#[trigger] groups@[i])@.len() == n by {
                if i != s as int {
                    assert(groups@[i] == groups_prev[i]);
                }
            }
            assert forall|i: int| 0 <= i < n && active@[i]
                implies (#[trigger] groups@[i])@[rep@[i] as int] by {
                assert(active_prev[i]);
                if i == s as int {
                    assert(groups_prev[i]@[rep@[i] as int]);
                } else {
                    assert(groups@[i] == groups_prev[i]);
                }
            }
            assert forall|i: int, j: int, x: int| #![trigger groups@[i]@[x], groups@[j]@[x]]
                0 <= i < n && 0 <= j < n && i != j && active@[i] && active@[j]
                    && 0 <= x < n
                implies !(groups@[i]@[x] && groups@[j]@[x]) by {
                assert(active_prev[i] && active_prev[j]);
                assert(active_prev[t as int]);
                if i == s as int {
                    assert(groups@[j] == groups_prev[j]);
                    assert(!(groups_prev[s as int]@[x] && groups_prev[j]@[x]));
                    assert(!(groups_prev[t as int]@[x] && groups_prev[j]@[x]));
                } else if j == s as int {
                    assert(groups@[i] == groups_prev[i]);
                    assert(!(groups_prev[s as int]@[x] && groups_prev[i]@[x]));
                    assert(!(groups_prev[t as int]@[x] && groups_prev[i]@[x]));
                } else {
                    assert(groups@[i] == groups_prev[i]);
                    assert(groups@[j] == groups_prev[j]);
                }
            }
        }
    }

    let r = crossing_edges(g, &best_side);
    proof {
        let side = best_side@;
        assert(nontrivial_partition(g@, side)
            && (forall|k: int| 0 <= k < r.len()
                ==> g@.edges.contains(#[trigger] r[k]) && crosses(side, r[k]))
            && (forall|e: int| 0 <= e < g@.edges.len()
                && crosses(side, #[trigger] g@.edges[e]) ==> r@.contains(g@.edges[e])));
    }
    r
}

/// Count the true entries of a mask.
fn count_true_entries(v: &Vec<bool>) -> (r: usize)
    ensures
        r == count_true(v@),
{
    let mut count: usize = 0;
    let mut at: usize = 0;
    while at < v.len()
        invariant
            at <= v@.len(),
            count <= at,
            count == count_true(v@.subrange(0, at as int)),
        decreases v@.len() - at,
    {
        let ghost prefix = v@.subrange(0, at as int);
        proof {
            assert(v@.subrange(0, at + 1).drop_last() =~= prefix);
            assert(v@.subrange(0, at + 1).last() == v@[at as int]);
        }
        if v[at] {
            count = count + 1;
        }
        at = at + 1;
    }
    proof {
        assert(v@.subrange(0, v@.len() as int) =~= v@);
    }
    count
}

} // verus!

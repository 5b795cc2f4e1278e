//! Diffusion centrality over the snapshot history.
//!
//! Influence spreading from each node is measured by walk counts: the
//! score of target `v` for source `u` at time step `t` is the number of
//! walks of length `t` from `u` to `v` through the latest snapshot, with
//! one time step per stored snapshot. Counts saturate at `u64::MAX`. All
//! numeric keys of the result are carried as decimal strings.

use vstd::prelude::*;

use crate::analytics::connectivity::adjacent;
use crate::graph::Graph;
use crate::graph::GraphView;
use crate::graph::graph_wf;
use crate::text::decimal_digits;
use crate::text::u32_to_string;
use crate::text::u64_to_string;

verus! {

/// An `int` clamped into the `u64` range.
pub open spec fn sat_u64(x: int) -> int {
    if x > u64::MAX {
        u64::MAX as int
    } else if x < 0 {
        0
    } else {
        x
    }
}

/// Saturating addition on `u64`.
fn sat_add_u64(a: u64, b: u64) -> (r: u64)
    ensures
        r as int == sat_u64(a + b),
{
    a.saturating_add(b)
}

/// Saturating multiplication on `u64`.
fn sat_mul_u64(a: u64, b: u64) -> (r: u64)
    ensures
        r as int == sat_u64(a * b),
{
    match a.checked_mul(b) {
        Some(v) => v,
        None => u64::MAX,
    }
}

/// The mathematical value of a matrix held as rows.
pub open spec fn mat_view(m: Vec<Vec<u64>>) -> Seq<Seq<u64>> {
    m@.map_values(|row: Vec<u64>| row@)
}

/// A square matrix of the given dimension.
pub open spec fn is_square(m: Seq<Seq<u64>>, n: int) -> bool {
    m.len() == n && forall|i: int| 0 <= i < n ==> (#[trigger] m[i]).len() == n
}

/// The saturating dot product of row `i` of `a` with column `j` of `b`,
/// over the first `k` coordinates.
pub open spec fn sat_dot(a: Seq<Seq<u64>>, b: Seq<Seq<u64>>, i: int, j: int, k: int) -> int
    decreases k,
{
    if k <= 0 {
        0
    } else {
        sat_u64(sat_dot(a, b, i, j, k - 1) + sat_u64(a[i][k - 1] * b[k - 1][j]))
    }
}

/// One entry of the adjacency matrix of a snapshot.
pub open spec fn adj_entry(g: GraphView, i: int, j: int) -> u64 {
    if adjacent(g, i, j) {
        1u64
    } else {
        0u64
    }
}

/// The walk-count matrix of a snapshot for walks of length `t`: the
/// adjacency matrix raised to the `t`-th power under saturating
/// arithmetic.
pub open spec fn walk_matrix(g: GraphView, t: nat) -> Seq<Seq<u64>>
    decreases t,
{
    let n = g.nodes.len() as int;
    if t <= 1 {
        Seq::new(n as nat, |i: int| Seq::new(n as nat, |j: int| adj_entry(g, i, j)))
    } else {
        let prev = walk_matrix(g, (t - 1) as nat);
        let adj = Seq::new(n as nat, |i: int| Seq::new(n as nat, |j: int| adj_entry(g, i, j)));
        Seq::new(
            n as nat,
            |i: int| Seq::new(n as nat, |j: int| sat_dot(prev, adj, i, j, n) as u64),
        )
    }
}

/// One target node's diffusion score.
#[derive(Clone, PartialEq, Debug)]
pub struct TargetScore {
    pub node: String,
    pub score: u64,
}

/// The per-target scores of one time step.
#[derive(Clone, PartialEq, Debug)]
pub struct StepScores {
    pub step: String,
    pub targets: Vec<TargetScore>,
}

/// The full time-indexed score table of one source node.
#[derive(Clone, PartialEq, Debug)]
pub struct NodeDiffusion {
    pub node: String,
    pub steps: Vec<StepScores>,
}

/// What the whole diffusion table must hold: one entry per source node in
/// node order, one step per stored snapshot keyed by its decimal
/// rendering, and per target the walk count of that length.
pub open spec fn diffusion_table_wf(
    g: GraphView,
    steps: nat,
    table: Seq<NodeDiffusion>,
) -> bool {
    let n = g.nodes.len() as int;
    &&& table.len() == n
    &&& forall|i: int| 0 <= i < n
        ==> (#[trigger] table[i]).node@ == decimal_digits(g.nodes[i].num as nat)
    &&& forall|i: int| 0 <= i < n ==> (#[trigger] table[i]).steps@.len() == steps
    &&& forall|i: int, t: int| 0 <= i < n && 0 <= t < steps
        ==> (#[trigger] table[i].steps@[t]).step@ == decimal_digits((t + 1) as nat)
    &&& forall|i: int, t: int| 0 <= i < n && 0 <= t < steps
        ==> (#[trigger] table[i].steps@[t]).targets@.len() == n
    &&& forall|i: int, t: int, j: int|
        0 <= i < n && 0 <= t < steps && 0 <= j < n
            ==> (#[trigger] table[i].steps@[t].targets@[j]).node@
                == decimal_digits(g.nodes[j].num as nat)
    &&& forall|i: int, t: int, j: int|
        0 <= i < n && 0 <= t < steps && 0 <= j < n
            ==> (#[trigger] table[i].steps@[t].targets@[j]).score
                == walk_matrix(g, (t + 1) as nat)[i][j]
}

/// The adjacency matrix of the snapshot, as 0/1 walk counts.
fn adjacency_matrix(g: &Graph) -> (m: Vec<Vec<u64>>)
    requires
        graph_wf(g@),
    ensures
        is_square(mat_view(m), g@.nodes.len() as int),
        forall|i: int, j: int| #![trigger mat_view(m)[i][j]]
            0 <= i < g@.nodes.len() && 0 <= j < g@.nodes.len()
                ==> mat_view(m)[i][j] == adj_entry(g@, i, j),
{
    let n = g.node_count();
    let mut m: Vec<Vec<u64>> = Vec::new();
    let mut row: usize = 0;
    while row < n
        invariant
            row <= n,
            m@.len() == row,
            forall|i: int| 0 <= i < row ==> (#[trigger] m@[i])@.len() == n,
            forall|i: int, j: int| #![trigger m@[i]@[j]]
                0 <= i < row && 0 <= j < n ==> m@[i]@[j] == 0u64,
        decreases n - row,
    {
        let zeros = zero_row(n);
        m.push(zeros);
        row = row + 1;
    }
    let total = g.get_edges().len();
    let mut at: usize = 0;
    while at < total
        invariant
            graph_wf(g@),
            n == g@.nodes.len(),
            total == g@.edges.len(),
            at <= total,
            m@.len() == n,
            forall|i: int| 0 <= i < n ==> (#[trigger] m@[i])@.len() == n,
            forall|i: int, j: int| #![trigger m@[i]@[j]]
                0 <= i < n && 0 <= j < n
                    ==> m@[i]@[j] == (if prefix_adjacent(g@, at as int, i, j) {
                        1u64
                    } else {
                        0u64
                    }),
        decreases total - at,
    {
        let e = g.get_edges()[at];
        let ghost m_prev = m@;
        m[e.u][e.v] = 1;
        proof {
            assert forall|i: int| 0 <= i < n implies (#[trigger] m@[i])@.len() == n by {
                if i != e.u as int {
                    assert(m@[i] == m_prev[i]);
                }
            }
        }
        let ghost m_mid = m@;
        m[e.v][e.u] = 1;
        proof {
            assert forall|i: int| 0 <= i < n implies (#[trigger] m@[i])@.len() == n by {
                if i != e.v as int {
                    assert(m@[i] == m_mid[i]);
                }
            }
            assert forall|i: int, j: int| #![trigger m@[i]@[j]]
                0 <= i < n && 0 <= j < n
                implies m@[i]@[j] == (if prefix_adjacent(g@, at + 1, i, j) {
                    1u64
                } else {
                    0u64
                }) by {
                let e0 = g@.edges[at as int];
                if (i == e0.u as int && j == e0.v as int)
                    || (i == e0.v as int && j == e0.u as int) {
                    assert(prefix_adjacent(g@, at + 1, i, j));
                } else {
                    if i != e0.u as int && i != e0.v as int {
                        assert(m@[i] == m_prev[i]);
                    } else if i == e0.u as int && i != e0.v as int {
                        assert(m@[i] == m_mid[i]);
                        if j != e0.v as int {
                            assert(m@[i]@[j] == m_prev[i]@[j]);
                        }
                    } else if i == e0.v as int {
                        if j != e0.u as int {
                            assert(m@[i]@[j] == m_mid[i]@[j]);
                            if i != e0.u as int {
                                assert(m_mid[i] == m_prev[i]);
                            }
                        }
                    }
                    assert(prefix_adjacent(g@, at + 1, i, j)
                        == prefix_adjacent(g@, at as int, i, j));
                }
            }
        }
        at = at + 1;
    }
    proof {
        assert forall|i: int, j: int| #![trigger mat_view(m)[i][j]]
            0 <= i < n && 0 <= j < n
            implies mat_view(m)[i][j] == adj_entry(g@, i, j) by {
            assert(mat_view(m)[i][j] == m@[i]@[j]);
            assert(prefix_adjacent(g@, total as int, i, j) == adjacent(g@, i, j));
        }
    }
    m
}

/// Whether one of the first `k` edges joins the two vertices.
pub open spec fn prefix_adjacent(g: GraphView, k: int, a: int, b: int) -> bool {
    exists|i: int| 0 <= i < k && i < g.edges.len()
        && ((g.edges[i].u == a && g.edges[i].v == b)
            || (g.edges[i].u == b && g.edges[i].v == a))
}

/// A row of zero counts.
fn zero_row(n: usize) -> (r: Vec<u64>)
    ensures
        r@.len() == n,
        forall|i: int| 0 <= i < n ==> r@[i] == 0u64,
{
    let mut r: Vec<u64> = Vec::new();
    let mut at: usize = 0;
    while at < n
        invariant
            at <= n,
            r@.len() == at,
            forall|i: int| 0 <= i < at ==> r@[i] == 0u64,
        decreases n - at,
    {
        r.push(0);
        at = at + 1;
    }
    r
}

/// The saturating matrix product of two square matrices.
fn sat_mat_mul(a: &Vec<Vec<u64>>, b: &Vec<Vec<u64>>, n: usize) -> (c: Vec<Vec<u64>>)
    requires
        is_square(mat_view(*a), n as int),
        is_square(mat_view(*b), n as int),
    ensures
        is_square(mat_view(c), n as int),
        forall|i: int, j: int| #![trigger mat_view(c)[i][j]]
            0 <= i < n && 0 <= j < n
                ==> mat_view(c)[i][j]
                    == sat_dot(mat_view(*a), mat_view(*b), i, j, n as int) as u64,
{
    let mut c: Vec<Vec<u64>> = Vec::new();
    let mut i: usize = 0;
    while i < n
        invariant
            is_square(mat_view(*a), n as int),
            is_square(mat_view(*b), n as int),
            i <= n,
            c@.len() == i,
            forall|r: int| 0 <= r < i ==> (#[trigger] c@[r])@.len() == n,
            forall|r: int, j: int| #![trigger c@[r]@[j]]
                0 <= r < i && 0 <= j < n
                    ==> c@[r]@[j] == sat_dot(mat_view(*a), mat_view(*b), r, j, n as int) as u64,
        decreases n - i,
    {
        let mut crow: Vec<u64> = Vec::new();
        let mut j: usize = 0;
        while j < n
            invariant
                is_square(mat_view(*a), n as int),
                is_square(mat_view(*b), n as int),
                i < n,
                j <= n,
                crow@.len() == j,
                forall|x: int| 0 <= x < j
                    ==> (#[trigger] crow@[x])
                        == sat_dot(mat_view(*a), mat_view(*b), i as int, x, n as int) as u64,
            decreases n - j,
        {
            let mut acc: u64 = 0;
            let mut k: usize = 0;
            while k < n
                invariant
                    is_square(mat_view(*a), n as int),
                    is_square(mat_view(*b), n as int),
                    i < n,
                    j < n,
                    k <= n,
                    acc as int == sat_dot(mat_view(*a), mat_view(*b), i as int, j as int, k as int),
                decreases n - k,
            {
                proof {
                    assert(a@.len() == mat_view(*a).len());
                    assert(a@[i as int]@.len() == mat_view(*a)[i as int].len());
                    assert(b@.len() == mat_view(*b).len());
                    assert(b@[k as int]@.len() == mat_view(*b)[k as int].len());
                }
                let term = sat_mul_u64(a[i][k], b[k][j]);
                proof {
                    assert(a@[i as int]@[k as int] == mat_view(*a)[i as int][k as int]);
                    assert(b@[k as int]@[j as int] == mat_view(*b)[k as int][j as int]);
                }
                acc = sat_add_u64(acc, term);
                k = k + 1;
            }
            crow.push(acc);
            j = j + 1;
        }
        c.push(crow);
        proof {
            assert forall|r: int, j2: int| #![trigger c@[r]@[j2]]
                0 <= r < i + 1 && 0 <= j2 < n
                implies c@[r]@[j2]
                    == sat_dot(mat_view(*a), mat_view(*b), r, j2, n as int) as u64 by {
                if r < i {
                    assert(c@[r] == c@.drop_last()[r]);
                }
            }
        }
        i = i + 1;
    }
    c
}

/// Compute the full diffusion table of a snapshot for the given number of
/// time steps: per source node, per step, the saturating walk counts to
/// every target node.
pub fn diffusion_scores(g: &Graph, steps: usize) -> (r: Vec<NodeDiffusion>)
    requires
        graph_wf(g@),
    ensures
        diffusion_table_wf(g@, steps as nat, r@),
{
    let n = g.node_count();
    let adj = adjacency_matrix(g);

    // The walk-count matrix for each time step, one power at a time.
    let mut powers: Vec<Vec<Vec<u64>>> = Vec::new();
    let mut t: usize = 0;
    while t < steps
        invariant
            graph_wf(g@),
            n == g@.nodes.len(),
            is_square(mat_view(adj), n as int),
            forall|i: int, j: int| #![trigger mat_view(adj)[i][j]]
                0 <= i < n && 0 <= j < n ==> mat_view(adj)[i][j] == adj_entry(g@, i, j),
            t <= steps,
            powers@.len() == t,
            forall|x: int| 0 <= x < t
                ==> is_square(mat_view(#[trigger] powers@[x]), n as int),
            forall|x: int| 0 <= x < t
                ==> mat_view(#[trigger] powers@[x]) =~~= walk_matrix(g@, (x + 1) as nat),
        decreases steps - t,
    {
        if t == 0 {
            let first = clone_matrix(&adj, n);
            proof {
                assert(mat_view(first) =~~= walk_matrix(g@, 1));
            }
            powers.push(first);
        } else {
            let next = sat_mat_mul(&powers[t - 1], &adj, n);
            proof {
                assert(mat_view(powers@[t - 1]) =~~= walk_matrix(g@, t as nat));
                lemma_walk_matrix_step(g@, (t + 1) as nat, mat_view(powers@[t - 1]), mat_view(adj));
                assert(mat_view(next) =~~= walk_matrix(g@, (t + 1) as nat));
            }
            powers.push(next);
        }
        t = t + 1;
    }

    // Assemble the keyed table.
    let mut table: Vec<NodeDiffusion> = Vec::new();
    let mut i: usize = 0;
    while i < n
        invariant
            graph_wf(g@),
            n == g@.nodes.len(),
            powers@.len() == steps,
            forall|x: int| 0 <= x < steps
                ==> is_square(mat_view(#[trigger] powers@[x]), n as int),
            forall|x: int| 0 <= x < steps
                ==> mat_view(#[trigger] powers@[x]) =~~= walk_matrix(g@, (x + 1) as nat),
            i <= n,
            table@.len() == i,
            forall|x: int| 0 <= x < i
                ==> (#[trigger] table@[x]).node@ == decimal_digits(g@.nodes[x].num as nat),
            forall|x: int| 0 <= x < i ==> (#[trigger] table@[x]).steps@.len() == steps,
            forall|x: int, t2: int| 0 <= x < i && 0 <= t2 < steps
                ==> (#[trigger] table@[x].steps@[t2]).step@
                    == decimal_digits((t2 + 1) as nat),
            forall|x: int, t2: int| 0 <= x < i && 0 <= t2 < steps
                ==> (#[trigger] table@[x].steps@[t2]).targets@.len() == n,
            forall|x: int, t2: int, j: int|
                0 <= x < i && 0 <= t2 < steps && 0 <= j < n
                    ==> (#[trigger] table@[x].steps@[t2].targets@[j]).node@
                        == decimal_digits(g@.nodes[j].num as nat),
            forall|x: int, t2: int, j: int|
                0 <= x < i && 0 <= t2 < steps && 0 <= j < n
                    ==> (#[trigger] table@[x].steps@[t2].targets@[j]).score
                        == walk_matrix(g@, (t2 + 1) as nat)[x][j],
        decreases n - i,
    {
        let mut step_list: Vec<StepScores> = Vec::new();
        let mut st: usize = 0;
        while st < steps
            invariant
                graph_wf(g@),
                n == g@.nodes.len(),
                i < n,
                powers@.len() == steps,
                forall|x: int| 0 <= x < steps
                    ==> is_square(mat_view(#[trigger] powers@[x]), n as int),
                forall|x: int| 0 <= x < steps
                    ==> mat_view(#[trigger] powers@[x]) =~~= walk_matrix(g@, (x + 1) as nat),
                st <= steps,
                step_list@.len() == st,
                forall|t2: int| 0 <= t2 < st
                    ==> (#[trigger] step_list@[t2]).step@ == decimal_digits((t2 + 1) as nat),
                forall|t2: int| 0 <= t2 < st
                    ==> (#[trigger] step_list@[t2]).targets@.len() == n,
                forall|t2: int, j: int| 0 <= t2 < st && 0 <= j < n
                    ==> (#[trigger] step_list@[t2].targets@[j]).node@
                        == decimal_digits(g@.nodes[j].num as nat),
                forall|t2: int, j: int| 0 <= t2 < st && 0 <= j < n
                    ==> (#[trigger] step_list@[t2].targets@[j]).score
                        == walk_matrix(g@, (t2 + 1) as nat)[i as int][j],
            decreases steps - st,
        {
            let mut targets: Vec<TargetScore> = Vec::new();
            let mut j: usize = 0;
            while j < n
                invariant
                    graph_wf(g@),
                    n == g@.nodes.len(),
                    i < n,
                    st < steps,
                    powers@.len() == steps,
                    forall|x: int| 0 <= x < steps
                        ==> is_square(mat_view(#[trigger] powers@[x]), n as int),
                    forall|x: int| 0 <= x < steps
                        ==> mat_view(#[trigger] powers@[x])
                            =~~= walk_matrix(g@, (x + 1) as nat),
                    j <= n,
                    targets@.len() == j,
                    forall|x: int| 0 <= x < j
                        ==> (#[trigger] targets@[x]).node@
                            == decimal_digits(g@.nodes[x].num as nat),
                    forall|x: int| 0 <= x < j
                        ==> (#[trigger] targets@[x]).score
                            == walk_matrix(g@, (st + 1) as nat)[i as int][x],
                decreases n - j,
            {
                let node = g.get_node(j).unwrap();
                proof {
                    assert(is_square(mat_view(powers@[st as int]), n as int));
                    assert(powers@[st as int]@.len() == mat_view(powers@[st as int]).len());
                    assert(powers@[st as int]@[i as int]@.len()
                        == mat_view(powers@[st as int])[i as int].len());
                }
                let score = powers[st][i][j];
                proof {
                    assert(mat_view(powers@[st as int])[i as int][j as int]
                        == powers@[st as int]@[i as int]@[j as int]);
                }
                targets.push(TargetScore { node: crate::text::u32_to_string(node.num), score: score });
                j = j + 1;
            }
            let step_key = u64_to_string((st as u64) + 1);
            step_list.push(StepScores { step: step_key, targets: targets });
            st = st + 1;
        }
        let node = g.get_node(i).unwrap();
        table.push(NodeDiffusion { node: u32_to_string(node.num), steps: step_list });
        i = i + 1;
    }
    table
}

/// One power step of the walk matrix: multiplying the counts for length
/// `t - 1` by the adjacency matrix gives the counts for length `t`.
proof fn lemma_walk_matrix_step(g: GraphView, t: nat, prev: Seq<Seq<u64>>, adj: Seq<Seq<u64>>)
    requires
        t >= 2,
        prev =~~= walk_matrix(g, (t - 1) as nat),
        adj =~~= Seq::new(
            g.nodes.len(),
            |i: int| Seq::new(g.nodes.len(), |j: int| adj_entry(g, i, j)),
        ),
    ensures
        walk_matrix(g, t) =~~= Seq::new(
            g.nodes.len(),
            |i: int| Seq::new(
                g.nodes.len(),
                |j: int| sat_dot(prev, adj, i, j, g.nodes.len() as int) as u64,
            ),
        ),
{
    let n = g.nodes.len() as int;
    let wadj = Seq::new(n as nat, |i: int| Seq::new(n as nat, |j: int| adj_entry(g, i, j)));
    assert(walk_matrix(g, t) == Seq::new(
        n as nat,
        |i: int| Seq::new(
            n as nat,
            |j: int| sat_dot(walk_matrix(g, (t - 1) as nat), wadj, i, j, n) as u64,
        ),
    ));
    assert forall|i: int, j: int| 0 <= i < n && 0 <= j < n
        implies sat_dot(walk_matrix(g, (t - 1) as nat), wadj, i, j, n)
            == sat_dot(prev, adj, i, j, n) by {
        lemma_sat_dot_congruence(walk_matrix(g, (t - 1) as nat), wadj, prev, adj, i, j, n);
    }
}

/// `sat_dot` only reads the entries of its operands.
proof fn lemma_sat_dot_congruence(
    a1: Seq<Seq<u64>>,
    b1: Seq<Seq<u64>>,
    a2: Seq<Seq<u64>>,
    b2: Seq<Seq<u64>>,
    i: int,
    j: int,
    k: int,
)
    requires
        a1 =~~= a2,
        b1 =~~= b2,
    ensures
        sat_dot(a1, b1, i, j, k) == sat_dot(a2, b2, i, j, k),
    decreases k,
{
    if k > 0 {
        lemma_sat_dot_congruence(a1, b1, a2, b2, i, j, k - 1);
    }
}

/// An exact copy of a square matrix.
fn clone_matrix(m: &Vec<Vec<u64>>, n: usize) -> (r: Vec<Vec<u64>>)
    requires
        is_square(mat_view(*m), n as int),
    ensures
        is_square(mat_view(r), n as int),
        forall|i: int, j: int| #![trigger mat_view(r)[i][j]]
            0 <= i < n && 0 <= j < n ==> mat_view(r)[i][j] == mat_view(*m)[i][j],
{
    let mut r: Vec<Vec<u64>> = Vec::new();
    let mut i: usize = 0;
    while i < n
        invariant
            is_square(mat_view(*m), n as int),
            i <= n,
            r@.len() == i,
            forall|x: int| 0 <= x < i ==> (#[trigger] r@[x])@.len() == n,
            forall|x: int, j: int| #![trigger r@[x]@[j]]
                0 <= x < i && 0 <= j < n ==> r@[x]@[j] == m@[x]@[j],
        decreases n - i,
    {
        let mut row: Vec<u64> = Vec::new();
        let mut j: usize = 0;
        while j < n
            invariant
                is_square(mat_view(*m), n as int),
                i < n,
                j <= n,
                row@.len() == j,
                forall|x: int| 0 <= x < j ==> (#[trigger] row@[x]) == m@[i as int]@[x],
            decreases n - j,
        {
            proof {
                assert(m@[i as int]@.len() == mat_view(*m)[i as int].len());
            }
            row.push(m[i][j]);
            j = j + 1;
        }
        r.push(row);
        i = i + 1;
    }
    r
}

} // verus!

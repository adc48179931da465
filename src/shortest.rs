//! What shortest distances are, and the trusted oracle that computes them with
//! petgraph's Dijkstra.

use vstd::prelude::*;
use crate::graph::{Edge, Graph};
use petgraph::graph::{DiGraph, NodeIndex};

verus! {

/// `p` lists edge indices that form a walk from `s` to `t` (the empty walk when
/// `s == t`).
pub open spec fn is_walk(edges: Seq<Edge>, p: Seq<int>, s: int, t: int) -> bool {
    &&& forall|k: int| 0 <= k < p.len() ==> 0 <= #[trigger] p[k] < edges.len()
    &&& if p.len() == 0 {
        s == t
    } else {
        &&& edges[p[0]].from == s
        &&& edges[p[p.len() - 1]].to == t
        &&& forall|k: int|
            0 <= k < p.len() - 1 ==> #[trigger] edges[p[k]].to == edges[p[k + 1]].from
    }
}

/// The summed weight of the edges of `p`.
pub open spec fn walk_cost(edges: Seq<Edge>, p: Seq<int>) -> int
    decreases p.len(),
{
    if p.len() == 0 {
        0
    } else {
        walk_cost(edges, p.drop_last()) + edges[p.last()].weight
    }
}

/// Some walk leads from `s` to `t`.
pub open spec fn reachable(edges: Seq<Edge>, s: int, t: int) -> bool {
    exists|p: Seq<int>| is_walk(edges, p, s, t)
}

/// `d` is the least cost of a walk from `s` to `t`.
pub open spec fn is_shortest(edges: Seq<Edge>, s: int, t: int, d: int) -> bool {
    &&& exists|p: Seq<int>| is_walk(edges, p, s, t) && walk_cost(edges, p) == d
    &&& forall|p: Seq<int>| is_walk(edges, p, s, t) ==> walk_cost(edges, p) >= d
}

/// `r` gives, for each node `v` below `n`, its shortest distance from `s`, or
/// `None` when no walk reaches it.
pub open spec fn shortest_distances(edges: Seq<Edge>, n: nat, s: int, r: Seq<Option<u64>>) -> bool {
    &&& r.len() == n
    &&& forall|v: int|
        0 <= v < n ==> match #[trigger] r[v] {
            Some(d) => is_shortest(edges, s, v, d as int),
            None => !reachable(edges, s, v),
        }
}

/// The summed weight of all edges.
pub open spec fn total_weight(edges: Seq<Edge>) -> int
    decreases edges.len(),
{
    if edges.len() == 0 {
        0
    } else {
        total_weight(edges.drop_last()) + edges.last().weight
    }
}

/// Largest total edge weight that the oracle accepts, so that no sum of
/// distances it forms can leave `u64`.
pub const MAX_TOTAL_WEIGHT: u64 = 0x7fff_ffff_ffff_ffff;

/// Largest node or edge count that the oracle accepts: petgraph's default
/// `u32` indices reserve their largest value.
pub const MAX_ORACLE_COUNT: usize = 0xffff_fffe;

/// The graphs that the oracle takes: node and edge counts within
/// `MAX_ORACLE_COUNT` and a total weight within `MAX_TOTAL_WEIGHT`.
pub open spec fn oracle_accepts(g: Graph) -> bool {
    g.num_nodes <= MAX_ORACLE_COUNT && g.edges@.len() <= MAX_ORACLE_COUNT && total_weight(g.edges@)
        <= MAX_TOTAL_WEIGHT
}

/// Relies on `petgraph::algo::dijkstra` on a `DiGraph<(), u64>` that holds the
/// nodes `0..n` and one edge per entry of `edges`: with non-negative weights
/// it maps every node reached from `source` to its least walk cost, and leaves
/// out the nodes that are not reached. Node and edge counts stay below the
/// index limit at which `add_node` and `add_edge` panic; every endpoint is a
/// node, as `add_edge` requires; the total weight bounds every sum formed.
#[verifier::external_body]
fn petgraph_dijkstra(n: usize, edges: &Vec<Edge>, source: usize) -> (r: Vec<Option<u64>>)
    requires
        n <= MAX_ORACLE_COUNT,
        edges@.len() <= MAX_ORACLE_COUNT,
        source < n,
        forall|k: int| 0 <= k < edges@.len() ==> (#[trigger] edges@[k]).from < n && edges@[k].to < n,
        total_weight(edges@) <= MAX_TOTAL_WEIGHT,
    ensures
        shortest_distances(edges@, n as nat, source as int, r@),
{
    let mut g: DiGraph<(), u64> = DiGraph::with_capacity(n, edges.len());
    for _ in 0..n {
        g.add_node(());
    }
    for e in edges.iter() {
        g.add_edge(NodeIndex::new(e.from), NodeIndex::new(e.to), e.weight);
    }
    let d = petgraph::algo::dijkstra(&g, NodeIndex::new(source), None, |e| *e.weight());
    (0..n).map(|i| d.get(&NodeIndex::new(i)).copied()).collect()
}

/// The summed weight of all edges, or `None` once it passes `MAX_TOTAL_WEIGHT`.
fn bounded_total_weight(edges: &Vec<Edge>) -> (r: Option<u64>)
    ensures
        match r {
            Some(t) => t as int == total_weight(edges@) && t <= MAX_TOTAL_WEIGHT,
            None => total_weight(edges@) > MAX_TOTAL_WEIGHT,
        },
{
    let mut sum: u64 = 0;
    let mut i: usize = 0;
    while i < edges.len()
        invariant
            i <= edges@.len(),
            sum as int == total_weight(edges@.subrange(0, i as int)),
            sum <= MAX_TOTAL_WEIGHT,
        decreases edges.len() - i,
    {
        proof {
            assert(edges@.subrange(0, i + 1).drop_last() =~= edges@.subrange(0, i as int));
        }
        if edges[i].weight > MAX_TOTAL_WEIGHT - sum {
            proof {
                lemma_total_weight_prefix_monotone(edges@, i + 1);
            }
            return None;
        }
        sum = sum + edges[i].weight;
        i = i + 1;
    }
    assert(edges@.subrange(0, i as int) =~= edges@);
    Some(sum)
}

proof fn lemma_total_weight_prefix_monotone(edges: Seq<Edge>, i: int)
    requires
        0 <= i <= edges.len(),
    ensures
        total_weight(edges.subrange(0, i)) <= total_weight(edges),
    decreases edges.len() - i,
{
    if i < edges.len() {
        lemma_total_weight_prefix_monotone(edges, i + 1);
        assert(edges.subrange(0, i + 1).drop_last() =~= edges.subrange(0, i));
    } else {
        assert(edges.subrange(0, i) =~= edges);
    }
}

/// No walk leaves a node that is not in the graph.
proof fn lemma_outside_source_reaches_nothing(g: Graph, s: int, v: int)
    requires
        g.wf(),
        s >= g.num_nodes,
        0 <= v < g.num_nodes,
    ensures
        !reachable(g.edges@, s, v),
{
    assert forall|p: Seq<int>| !is_walk(g.edges@, p, s, v) by {
        if p.len() > 0 && is_walk(g.edges@, p, s, v) {
            assert(0 <= p[0] < g.edges@.len());
            assert(g.edges@[p[0]].from < g.num_nodes);
        }
    }
}

/// The trusted shortest distances from `source` to every node of `g`, by
/// petgraph's Dijkstra. A source outside the graph reaches no node. `None` when
/// the graph is beyond what the oracle takes: more than `MAX_ORACLE_COUNT`
/// nodes or edges, or a total weight above `MAX_TOTAL_WEIGHT`.
pub fn dijkstra_reference_lib(g: &Graph, source: usize) -> (r: Option<Vec<Option<u64>>>)
    requires
        g.wf(),
    ensures
        r.is_some() <==> oracle_accepts(*g),
        r matches Some(d) ==> shortest_distances(
            g.edges@,
            g.num_nodes as nat,
            source as int,
            d@,
        ),
{
    if g.num_nodes > MAX_ORACLE_COUNT || g.edges.len() > MAX_ORACLE_COUNT {
        return None;
    }
    match bounded_total_weight(&g.edges) {
        None => None,
        Some(_) => {
            if source < g.num_nodes {
                Some(petgraph_dijkstra(g.num_nodes, &g.edges, source))
            } else {
                let mut d: Vec<Option<u64>> = Vec::new();
                let mut i: usize = 0;
                while i < g.num_nodes
                    invariant
                        i <= g.num_nodes,
                        d@.len() == i,
                        forall|k: int| 0 <= k < i ==> (#[trigger] d@[k]).is_none(),
                    decreases g.num_nodes - i,
                {
                    d.push(None);
                    i = i + 1;
                }
                proof {
                    assert forall|v: int| 0 <= v < g.num_nodes implies match #[trigger] d@[v] {
                        Some(x) => is_shortest(g.edges@, source as int, v, x as int),
                        None => !reachable(g.edges@, source as int, v),
                    } by {
                        lemma_outside_source_reaches_nothing(*g, source as int, v);
                    }
                }
                Some(d)
            }
        },
    }
}

} // verus!

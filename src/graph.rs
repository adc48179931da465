//! Directed weighted graphs over the nodes `0..num_nodes`, with weights held as
//! fixed-point integers, and their seeded random generation.

use vstd::prelude::*;
use crate::random::draw_u64;

verus! {

/// Weight units that make up one whole unit of distance: weights and distances
/// are fixed-point values with nine decimal digits.
pub const WEIGHT_UNIT: u64 = 1_000_000_000;

/// Generated weights lie in `0..MAX_WEIGHT`, that is in `[0, 10)` whole units.
pub const MAX_WEIGHT: u64 = 10_000_000_000;

/// Edge probabilities are given in parts per million.
pub const PROB_SCALE: u64 = 1_000_000;

/// One directed edge `from -> to` with its weight.
#[derive(Clone, Copy, Debug, PartialEq, Eq, Structural)]
pub struct Edge {
    pub from: usize,
    pub to: usize,
    pub weight: u64,
}

/// A directed graph on the nodes `0..num_nodes`; the adjacency list of a node
/// is the subsequence of `edges` that leave it.
#[derive(Clone, Debug)]
pub struct Graph {
    pub num_nodes: usize,
    pub edges: Vec<Edge>,
}

/// `a` comes strictly before `b` when edges are ordered by source, then target.
pub open spec fn edge_before(a: Edge, b: Edge) -> bool {
    a.from < b.from || (a.from == b.from && a.to < b.to)
}

impl Graph {
    /// Every edge joins two distinct nodes of the graph.
    pub open spec fn wf(&self) -> bool {
        forall|k: int|
            0 <= k < self.edges@.len() ==> {
                let e = #[trigger] self.edges@[k];
                e.from < self.num_nodes && e.to < self.num_nodes && e.from != e.to
            }
    }
}

/// Some edge of `edges` goes from `u` to `v`.
pub open spec fn has_edge(edges: Seq<Edge>, u: int, v: int) -> bool {
    exists|k: int| 0 <= k < edges.len() && edges[k].from == u && edges[k].to == v
}

/// Whether a pair gets an edge, given its draw from `0..PROB_SCALE`: it does
/// when the draw is below the edge probability in parts per million.
pub fn edge_decision(draw: u64, edge_prob_ppm: u64) -> (r: bool)
    ensures
        r == (draw < edge_prob_ppm),
{
    draw < edge_prob_ppm
}

/// A random graph on `num_nodes` nodes: for each ordered pair `(u, v)` with
/// `u != v`, in order of `u` then `v`, a draw from `0..PROB_SCALE` decides
/// through `edge_decision` whether the edge is present, and for a present edge
/// a second draw gives its weight in `0..MAX_WEIGHT`. So each edge is present
/// with probability `edge_prob_ppm / PROB_SCALE`: none at 0, all at
/// `PROB_SCALE` or more. Correctness checks and benchmarks both use this
/// generator; the probability is always compared with a draw on its own scale.
pub fn gen_random_graph(
    rng: &mut rand::rngs::StdRng,
    num_nodes: usize,
    edge_prob_ppm: u64,
) -> (g: Graph)
    ensures
        g.wf(),
        g.num_nodes == num_nodes,
        forall|k: int| 0 <= k < g.edges@.len() ==> (#[trigger] g.edges@[k]).weight < MAX_WEIGHT,
        forall|i: int, j: int|
            0 <= i < j < g.edges@.len() ==> edge_before(#[trigger] g.edges@[i], #[trigger] g.edges@[j]),
        edge_prob_ppm == 0 ==> g.edges@.len() == 0,
        edge_prob_ppm >= PROB_SCALE ==> forall|u: int, v: int|
            0 <= u < num_nodes && 0 <= v < num_nodes && u != v ==> #[trigger] has_edge(
                g.edges@,
                u,
                v,
            ),
{
    let mut edges: Vec<Edge> = Vec::new();
    let mut u: usize = 0;
    while u < num_nodes
        invariant
            u <= num_nodes,
            forall|k: int|
                0 <= k < edges@.len() ==> {
                    let e = #[trigger] edges@[k];
                    e.from < u && e.to < num_nodes && e.from != e.to && e.weight < MAX_WEIGHT
                },
            forall|i: int, j: int|
                0 <= i < j < edges@.len() ==> edge_before(#[trigger] edges@[i], #[trigger] edges@[j]),
            edge_prob_ppm == 0 ==> edges@.len() == 0,
            edge_prob_ppm >= PROB_SCALE ==> forall|a: int, b: int|
                0 <= a < u && 0 <= b < num_nodes && a != b ==> #[trigger] has_edge(edges@, a, b),
        decreases num_nodes - u,
    {
        let mut v: usize = 0;
        while v < num_nodes
            invariant
                u < num_nodes,
                v <= num_nodes,
                forall|k: int|
                    0 <= k < edges@.len() ==> {
                        let e = #[trigger] edges@[k];
                        (e.from < u || (e.from == u && e.to < v)) && e.to < num_nodes && e.from
                            != e.to && e.weight < MAX_WEIGHT
                    },
                forall|i: int, j: int|
                    0 <= i < j < edges@.len() ==> edge_before(
                        #[trigger] edges@[i],
                        #[trigger] edges@[j],
                    ),
                edge_prob_ppm == 0 ==> edges@.len() == 0,
                edge_prob_ppm >= PROB_SCALE ==> forall|a: int, b: int|
                    0 <= b < num_nodes && a != b && (0 <= a < u || (a == u && 0 <= b < v))
                        ==> #[trigger] has_edge(edges@, a, b),
            decreases num_nodes - v,
        {
            if u != v {
                let coin = draw_u64(rng, 0, PROB_SCALE);
                if edge_decision(coin, edge_prob_ppm) {
                    let w = draw_u64(rng, 0, MAX_WEIGHT);
                    let e = Edge { from: u, to: v, weight: w };
                    let ghost before = edges@;
                    edges.push(e);
                    assert forall|i: int, j: int|
                        0 <= i < j < edges@.len() implies edge_before(
                        #[trigger] edges@[i],
                        #[trigger] edges@[j],
                    ) by {
                        if j == before.len() {
                            assert(edges@[i] == before[i]);
                        }
                    }
                    assert forall|a: int, b: int| #[trigger]
                        has_edge(before, a, b) implies has_edge(edges@, a, b) by {
                        let k = choose|k: int|
                            0 <= k < before.len() && before[k].from == a && before[k].to == b;
                        assert(edges@[k] == before[k]);
                    }
                    assert(edges@[before.len() as int] == e);
                    assert(has_edge(edges@, u as int, v as int));
                    if edge_prob_ppm >= PROB_SCALE {
                        assert forall|a: int, b: int|
                            0 <= b < num_nodes && a != b && (0 <= a < u || (a == u && 0 <= b
                                <= v)) implies #[trigger] has_edge(edges@, a, b) by {
                            if !(a == u && b == v) {
                                assert(has_edge(before, a, b));
                            }
                        }
                    }
                }
            }
            v = v + 1;
        }
        u = u + 1;
    }
    Graph { num_nodes, edges }
}

} // verus!

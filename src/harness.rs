//! The decisions of the correctness and performance harnesses: which candidates
//! run, which inputs they share, and what each run comes to.

use vstd::prelude::*;
use crate::arrays::{make_array, shaped_like, Distribution};
use crate::distances::{candidate_matches, lookup, within_tolerance};
use crate::graph::Graph;
use crate::shortest::{
    dijkstra_reference_lib, is_shortest, is_walk, oracle_accepts, reachable, shortest_distances,
    walk_cost,
};
use crate::sorting::{arrays_match, insertion_sort, reference_sorted, sort_in_place, sorted_seq};
use crate::tally::Outcome;

verus! {

/// A sort implementation that the harness can run.
#[derive(Clone, Copy, Debug, PartialEq, Eq, Structural)]
pub enum SortCandidate {
    /// The verified insertion sort of this library.
    Insertion,
    /// The standard library's sort.
    Standard,
}

impl SortCandidate {
    /// The name under which results are reported.
    pub fn name(&self) -> (r: &'static str)
        ensures
            r@ == match self {
                SortCandidate::Insertion => "insertion"@,
                SortCandidate::Standard => "standard"@,
            },
    {
        match self {
            SortCandidate::Insertion => "insertion",
            SortCandidate::Standard => "standard",
        }
    }

    /// Sorts `v` in place with this candidate.
    pub fn run(&self, v: &mut Vec<i32>)
        ensures
            final(v)@ == sorted_seq(old(v)@),
    {
        match self {
            SortCandidate::Insertion => insertion_sort(v),
            SortCandidate::Standard => sort_in_place(v),
        }
    }
}

/// The registered sort candidates, in the order they are run.
pub fn algorithms() -> (r: Vec<SortCandidate>)
    ensures
        r@ == seq![SortCandidate::Insertion, SortCandidate::Standard],
{
    let r = vec![SortCandidate::Insertion, SortCandidate::Standard];
    assert(r@ =~= seq![SortCandidate::Insertion, SortCandidate::Standard]);
    r
}

/// The outcome of one sort run on `input`: `None` when the candidate did not
/// complete, else the array it left.
pub fn check_sort_run(input: &Vec<i32>, result: Option<Vec<i32>>) -> (r: Outcome)
    ensures
        r == match result {
            None => Outcome::Crashed,
            Some(got) => if got@ == sorted_seq(input@) {
                Outcome::Passed
            } else {
                Outcome::Mismatch
            },
        },
{
    match result {
        None => Outcome::Crashed,
        Some(got) => {
            let expected = reference_sorted(input);
            if arrays_match(&got, &expected) {
                Outcome::Passed
            } else {
                Outcome::Mismatch
            }
        },
    }
}

/// `got` agrees with the distances `d` at every node below `d.len()`.
pub open spec fn agrees(d: Seq<Option<u64>>, got: Seq<(usize, u64)>) -> bool {
    forall|v: int| 0 <= v < d.len() ==> within_tolerance(#[trigger] d[v], lookup(got, v as usize))
}

/// The outcome of one shortest-path run from `source` on `g`: `None` when the
/// candidate did not complete, else the (node, distance) entries it returned.
/// The result is `None` when the oracle does not take the graph.
pub fn check_path_run(
    g: &Graph,
    source: usize,
    result: Option<Vec<(usize, u64)>>,
) -> (r: Option<Outcome>)
    requires
        g.wf(),
    ensures
        match r {
            None => !oracle_accepts(*g),
            Some(o) => exists|d: Seq<Option<u64>>|
                shortest_distances(g.edges@, g.num_nodes as nat, source as int, d) && o == match result {
                    None => Outcome::Crashed,
                    Some(got) => if agrees(d, got@) {
                        Outcome::Passed
                    } else {
                        Outcome::Mismatch
                    },
                },
        },
{
    match dijkstra_reference_lib(g, source) {
        None => None,
        Some(expected) => match result {
            None => Some(Outcome::Crashed),
            Some(got) => {
                if candidate_matches(&expected, &got) {
                    Some(Outcome::Passed)
                } else {
                    Some(Outcome::Mismatch)
                }
            },
        },
    }
}

/// A candidate whose every answer is a shortest distance (and which leaves out
/// exactly the unreachable nodes) agrees with the oracle at every node.
pub proof fn lemma_correct_candidate_agrees(
    g: Graph,
    source: usize,
    oracle: Seq<Option<u64>>,
    got: Seq<(usize, u64)>,
)
    requires
        shortest_distances(g.edges@, g.num_nodes as nat, source as int, oracle),
        forall|v: int|
            0 <= v < g.num_nodes ==> match #[trigger] lookup(got, v as usize) {
                Some(d) => is_shortest(g.edges@, source as int, v, d as int),
                None => !reachable(g.edges@, source as int, v),
            },
    ensures
        agrees(oracle, got),
{
    let e = g.edges@;
    let s = source as int;
    assert forall|v: int| 0 <= v < oracle.len() implies within_tolerance(
        #[trigger] oracle[v],
        lookup(got, v as usize),
    ) by {
        let a = oracle[v];
        let b = lookup(got, v as usize);
        assert(match b {
            Some(d) => is_shortest(e, s, v, d as int),
            None => !reachable(e, s, v),
        });
        match (a, b) {
            (Some(x), Some(y)) => {
                let px = choose|p: Seq<int>| is_walk(e, p, s, v) && walk_cost(e, p) == x as int;
                let py = choose|p: Seq<int>| is_walk(e, p, s, v) && walk_cost(e, p) == y as int;
                assert(walk_cost(e, px) >= y);
                assert(walk_cost(e, py) >= x);
            },
            (Some(x), None) => {
                let px = choose|p: Seq<int>| is_walk(e, p, s, v) && walk_cost(e, p) == x as int;
                assert(is_walk(e, px, s, v));
            },
            (None, Some(y)) => {
                let py = choose|p: Seq<int>| is_walk(e, p, s, v) && walk_cost(e, p) == y as int;
                assert(is_walk(e, py, s, v));
            },
            (None, None) => {},
        }
    }
}

/// The five distribution families, in the order the harnesses run them.
pub open spec fn distribution_order() -> Seq<Distribution> {
    seq![
        Distribution::Random,
        Distribution::Sorted,
        Distribution::Reversed,
        Distribution::NearlySorted,
        Distribution::FewValues,
    ]
}

/// The five distribution families, in the order the harnesses run them.
pub fn all_distributions() -> (r: Vec<Distribution>)
    ensures
        r@ == distribution_order(),
{
    let r = vec![
        Distribution::Random,
        Distribution::Sorted,
        Distribution::Reversed,
        Distribution::NearlySorted,
        Distribution::FewValues,
    ];
    assert(r@ =~= distribution_order());
    r
}

/// The arrays that every candidate is timed on for one family and size.
#[derive(Clone, Debug)]
pub struct InputSet {
    pub dist: Distribution,
    pub n: usize,
    pub runs: Vec<Vec<i32>>,
}

/// `set` holds `count` arrays, each of its family and size.
pub open spec fn well_shaped(set: InputSet, count: nat) -> bool {
    &&& set.runs@.len() == count
    &&& forall|j: int| 0 <= j < count ==> shaped_like(set.dist, set.n as nat, #[trigger] set.runs@[j]@)
}

/// One input set per size for family `dist`, in the order of `sizes`.
pub fn precompute_family(
    rng: &mut rand::rngs::StdRng,
    dist: Distribution,
    sizes: &Vec<usize>,
    runs_per_combo: usize,
) -> (r: Vec<InputSet>)
    ensures
        r@.len() == sizes@.len(),
        forall|k: int|
            0 <= k < r@.len() ==> (#[trigger] r@[k]).dist == dist && r@[k].n == sizes@[k]
                && well_shaped(r@[k], runs_per_combo as nat),
{
    let mut sets: Vec<InputSet> = Vec::new();
    let mut k: usize = 0;
    while k < sizes.len()
        invariant
            k <= sizes@.len(),
            sets@.len() == k,
            forall|q: int|
                0 <= q < k ==> (#[trigger] sets@[q]).dist == dist && sets@[q].n == sizes@[q]
                    && well_shaped(sets@[q], runs_per_combo as nat),
        decreases sizes.len() - k,
    {
        let n = sizes[k];
        let mut runs: Vec<Vec<i32>> = Vec::new();
        let mut j: usize = 0;
        while j < runs_per_combo
            invariant
                j <= runs_per_combo,
                runs@.len() == j,
                forall|q: int| 0 <= q < j ==> shaped_like(dist, n as nat, #[trigger] runs@[q]@),
            decreases runs_per_combo - j,
        {
            let arr = make_array(dist, n, rng);
            runs.push(arr);
            j = j + 1;
        }
        sets.push(InputSet { dist, n, runs });
        k = k + 1;
    }
    sets
}

/// The shared pool of timing inputs: for each family in `distribution_order()`
/// and each size in `sizes`, `runs_per_combo` arrays, all drawn from `rng` in
/// that order so that every candidate is timed on the same arrays.
pub fn precompute_inputs(
    rng: &mut rand::rngs::StdRng,
    sizes: &Vec<usize>,
    runs_per_combo: usize,
) -> (r: Vec<InputSet>)
    ensures
        r@.len() == distribution_order().len() * sizes@.len(),
        forall|d: int, k: int|
            0 <= d < distribution_order().len() && 0 <= k < sizes@.len() ==> {
                let set = #[trigger] r@[d * sizes@.len() + k];
                set.dist == distribution_order()[d] && set.n == sizes@[k] && well_shaped(
                    set,
                    runs_per_combo as nat,
                )
            },
{
    let dists = all_distributions();
    let m = sizes.len();
    let mut sets: Vec<InputSet> = Vec::new();
    let mut d: usize = 0;
    while d < dists.len()
        invariant
            dists@ == distribution_order(),
            m == sizes@.len(),
            d <= 5,
            sets@.len() == d * m,
            forall|dd: int, k: int|
                0 <= dd < d && 0 <= k < m ==> {
                    let set = #[trigger] sets@[dd * m + k];
                    set.dist == distribution_order()[dd] && set.n == sizes@[k] && well_shaped(
                        set,
                        runs_per_combo as nat,
                    )
                },
        decreases 5 - d,
    {
        let mut family = precompute_family(rng, dists[d], sizes, runs_per_combo);
        let ghost before = sets@;
        let ghost fam = family@;
        sets.append(&mut family);
        proof {
            assert(sets@ == before + fam);
            assert((d + 1) * m == d * m + m) by (nonlinear_arith);
            assert forall|dd: int, k: int| 0 <= dd < d + 1 && 0 <= k < m implies {
                let set = #[trigger] sets@[dd * m + k];
                set.dist == distribution_order()[dd] && set.n == sizes@[k] && well_shaped(
                    set,
                    runs_per_combo as nat,
                )
            } by {
                if dd < d {
                    assert(dd * m + k < d * m) by (nonlinear_arith)
                        requires
                            dd < d,
                            k < m,
                    ;
                    assert(sets@[dd * m + k] == before[dd * m + k]);
                } else {
                    assert(sets@[dd * m + k] == fam[k]);
                }
            }
        }
        d = d + 1;
    }
    sets
}

} // verus!

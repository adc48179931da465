//! Comparison of a candidate's distance mapping with the oracle's: every node is
//! looked up (absent means unreachable, an infinite distance) and each pair of
//! distances is compared under a relative tolerance.

use vstd::prelude::*;
use crate::graph::WEIGHT_UNIT;

verus! {

/// Two finite distances are equal when their difference, times this, is at
/// most their scale: a relative tolerance of one part in a billion.
pub const TOLERANCE_INVERSE: u64 = 1_000_000_000;

/// The distance that `entries` gives for `v`: the first entry with key `v`, or
/// `None` (unreachable) when there is none.
pub open spec fn lookup(entries: Seq<(usize, u64)>, v: usize) -> Option<u64>
    decreases entries.len(),
{
    if entries.len() == 0 {
        None
    } else if entries[0].0 == v {
        Some(entries[0].1)
    } else {
        lookup(entries.drop_first(), v)
    }
}

/// The scale of a comparison: the larger of the two distances and one whole
/// unit.
pub open spec fn scale_of(x: u64, y: u64) -> int {
    let m = if x >= y { x } else { y };
    if m >= WEIGHT_UNIT { m as int } else { WEIGHT_UNIT as int }
}

/// Two distances agree: both infinite, or both finite with
/// `|x - y| * TOLERANCE_INVERSE <= scale_of(x, y)`.
pub open spec fn within_tolerance(a: Option<u64>, b: Option<u64>) -> bool {
    match (a, b) {
        (None, None) => true,
        (Some(x), Some(y)) => {
            let diff = if x >= y { x - y } else { y - x };
            diff * TOLERANCE_INVERSE <= scale_of(x, y)
        },
        _ => false,
    }
}

/// Whether two distances agree under the relative tolerance.
pub fn approx_equal(a: Option<u64>, b: Option<u64>) -> (r: bool)
    ensures
        r == within_tolerance(a, b),
{
    match (a, b) {
        (None, None) => true,
        (Some(x), Some(y)) => {
            let diff: u64 = if x >= y { x - y } else { y - x };
            let m: u64 = if x >= y { x } else { y };
            let scale: u64 = if m >= WEIGHT_UNIT { m } else { WEIGHT_UNIT };
            assert((diff as u128) * (TOLERANCE_INVERSE as u128) <= 0xffff_ffff_ffff_ffffu128
                * 1_000_000_000u128) by (nonlinear_arith)
                requires
                    diff <= 0xffff_ffff_ffff_ffffu64,
            ;
            (diff as u128) * (TOLERANCE_INVERSE as u128) <= scale as u128
        },
        _ => false,
    }
}

/// The distance that `entries` gives for `v`.
pub fn lookup_entry(entries: &Vec<(usize, u64)>, v: usize) -> (r: Option<u64>)
    ensures
        r == lookup(entries@, v),
{
    let mut i: usize = 0;
    assert(entries@.subrange(0, entries@.len() as int) =~= entries@);
    while i < entries.len()
        invariant
            i <= entries@.len(),
            lookup(entries@, v) == lookup(entries@.subrange(i as int, entries@.len() as int), v),
        decreases entries.len() - i,
    {
        let ghost rest = entries@.subrange(i as int, entries@.len() as int);
        assert(rest.drop_first() =~= entries@.subrange(i + 1, entries@.len() as int));
        if entries[i].0 == v {
            return Some(entries[i].1);
        }
        i = i + 1;
    }
    None
}

/// The distance of each node `0..num_nodes` in `entries`, `None` standing for
/// an unreachable (infinitely distant) node.
pub fn normalize(entries: &Vec<(usize, u64)>, num_nodes: usize) -> (r: Vec<Option<u64>>)
    ensures
        r@.len() == num_nodes,
        forall|v: int| 0 <= v < num_nodes ==> #[trigger] r@[v] == lookup(entries@, v as usize),
{
    let mut r: Vec<Option<u64>> = Vec::new();
    let mut v: usize = 0;
    while v < num_nodes
        invariant
            v <= num_nodes,
            r@.len() == v,
            forall|k: int| 0 <= k < v ==> #[trigger] r@[k] == lookup(entries@, k as usize),
        decreases num_nodes - v,
    {
        let d = lookup_entry(entries, v);
        r.push(d);
        v = v + 1;
    }
    r
}

/// Whether two normalized distance vectors agree at every node.
pub fn distances_match(expected: &Vec<Option<u64>>, got: &Vec<Option<u64>>) -> (r: bool)
    ensures
        r == (expected@.len() == got@.len() && forall|k: int|
            0 <= k < expected@.len() ==> within_tolerance(#[trigger] expected@[k], got@[k])),
{
    if expected.len() != got.len() {
        return false;
    }
    let mut i: usize = 0;
    while i < expected.len()
        invariant
            expected@.len() == got@.len(),
            i <= expected@.len(),
            forall|k: int| 0 <= k < i ==> within_tolerance(#[trigger] expected@[k], got@[k]),
        decreases expected.len() - i,
    {
        if !approx_equal(expected[i], got[i]) {
            return false;
        }
        i = i + 1;
    }
    true
}

/// Whether a candidate's mapping agrees with the oracle's distances at every
/// node `0..expected.len()`; keys beyond those nodes are not looked at.
pub fn candidate_matches(expected: &Vec<Option<u64>>, got: &Vec<(usize, u64)>) -> (r: bool)
    ensures
        r == forall|v: int|
            0 <= v < expected@.len() ==> within_tolerance(
                #[trigger] expected@[v],
                lookup(got@, v as usize),
            ),
{
    let normalized = normalize(got, expected.len());
    distances_match(expected, &normalized)
}

/// The tolerance boundary is inclusive: finite distances whose difference is
/// exactly their scale over `TOLERANCE_INVERSE` agree, and any larger
/// difference makes them disagree.
pub proof fn lemma_tolerance_boundary(x: u64, y: u64)
    ensures
        (if x >= y { x - y } else { y - x }) * TOLERANCE_INVERSE == scale_of(x, y)
            ==> within_tolerance(Some(x), Some(y)),
        (if x >= y { x - y } else { y - x }) * TOLERANCE_INVERSE > scale_of(x, y)
            ==> !within_tolerance(Some(x), Some(y)),
{
}

/// Agreement is reflexive: a candidate that returns exactly the oracle's
/// distances passes at every node.
pub proof fn lemma_same_distances_agree(d: Seq<Option<u64>>)
    ensures
        forall|k: int| 0 <= k < d.len() ==> within_tolerance(#[trigger] d[k], d[k]),
{
}

/// Agreement is symmetric: it does not matter which side is the oracle.
pub proof fn lemma_agreement_symmetric(a: Option<u64>, b: Option<u64>)
    ensures
        within_tolerance(a, b) == within_tolerance(b, a),
{
}

} // verus!

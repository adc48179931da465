//! Array inputs for sort harnesses: five distribution families drawn from a
//! seeded generator, and a fixed list of edge cases.

use vstd::prelude::*;
use vstd::relations::sorted_by;
use crate::random::{draw_i32, draw_usize};
use crate::sorting::{ascending, sort_in_place, sorted_seq};

verus! {

broadcast use vstd::seq_lib::group_to_multiset_ensures;

/// Smallest value that the uniform family draws.
pub const RANDOM_MIN: i32 = -1_000_000;

/// Largest value that the uniform family draws.
pub const RANDOM_MAX: i32 = 1_000_000;

/// Largest value that the low-cardinality family draws (the smallest is 0).
pub const FEW_VALUES_MAX: i32 = 9;

/// The statistical shape of a generated array.
#[derive(Clone, Copy, Debug, PartialEq, Eq, Structural)]
pub enum Distribution {
    Random,
    Sorted,
    Reversed,
    NearlySorted,
    FewValues,
}

impl Distribution {
    /// The name under which the family is reported.
    pub fn name(&self) -> (r: &'static str)
        ensures
            r@ == match self {
                Distribution::Random => "random"@,
                Distribution::Sorted => "sorted"@,
                Distribution::Reversed => "reversed"@,
                Distribution::NearlySorted => "nearly_sorted"@,
                Distribution::FewValues => "few_values"@,
            },
    {
        match self {
            Distribution::Random => "random",
            Distribution::Sorted => "sorted",
            Distribution::Reversed => "reversed",
            Distribution::NearlySorted => "nearly_sorted",
            Distribution::FewValues => "few_values",
        }
    }
}

/// Every element of `s` lies in `lo..=hi`.
pub open spec fn all_within(s: Seq<i32>, lo: i32, hi: i32) -> bool {
    forall|k: int| 0 <= k < s.len() ==> lo <= #[trigger] s[k] <= hi
}

/// Descending order on `i32`.
pub open spec fn descending() -> spec_fn(i32, i32) -> bool {
    |x: i32, y: i32| x >= y
}

/// How many random transpositions the nearly-sorted family applies to `n`
/// elements: one per hundred elements, and at least one.
pub open spec fn swap_count(n: nat) -> nat {
    if n / 100 >= 1 { n / 100 } else { 1 }
}

/// How many of the first `k` positions hold different values in `a` and `b`.
pub open spec fn displaced_upto(a: Seq<i32>, b: Seq<i32>, k: int) -> nat
    decreases k,
{
    if k <= 0 {
        0
    } else {
        displaced_upto(a, b, k - 1) + if a[k - 1] != b[k - 1] { 1nat } else { 0nat }
    }
}

/// How many positions hold different values in `a` and `b`.
pub open spec fn displaced(a: Seq<i32>, b: Seq<i32>) -> nat {
    displaced_upto(a, b, a.len() as int)
}

proof fn lemma_displaced_upto_update(a: Seq<i32>, b: Seq<i32>, i: int, x: i32, k: int)
    requires
        0 <= i < a.len(),
        0 <= k <= a.len(),
    ensures
        displaced_upto(a.update(i, x), b, k) <= displaced_upto(a, b, k) + 1,
        k <= i ==> displaced_upto(a.update(i, x), b, k) == displaced_upto(a, b, k),
    decreases k,
{
    if k > 0 {
        lemma_displaced_upto_update(a, b, i, x, k - 1);
    }
}

proof fn lemma_displaced_same(a: Seq<i32>, k: int)
    requires
        0 <= k <= a.len(),
    ensures
        displaced_upto(a, a, k) == 0,
    decreases k,
{
    if k > 0 {
        lemma_displaced_same(a, k - 1);
    }
}

proof fn lemma_swap_same_elements(v: Seq<i32>, i: int, j: int)
    requires
        0 <= i < v.len(),
        0 <= j < v.len(),
    ensures
        v.update(i, v[j]).update(j, v[i]).to_multiset() == v.to_multiset(),
{
    broadcast use vstd::seq_lib::to_multiset_update;
    broadcast use vstd::multiset::group_multiset_axioms;

    let v1 = v.update(i, v[j]);
    assert(v1[j] == v[j]);
    assert(v1.to_multiset() == v.to_multiset().insert(v[j]).remove(v[i]));
    assert(v1.update(j, v[i]).to_multiset() == v1.to_multiset().insert(v[i]).remove(v[j]));
    assert(v.to_multiset().insert(v[j]).remove(v[i]).insert(v[i]).remove(v[j]) =~= v.to_multiset());
}

proof fn lemma_same_elements_within(s: Seq<i32>, t: Seq<i32>, lo: i32, hi: i32)
    requires
        all_within(s, lo, hi),
        t.to_multiset() == s.to_multiset(),
    ensures
        all_within(t, lo, hi),
{
    assert forall|k: int| 0 <= k < t.len() implies lo <= #[trigger] t[k] <= hi by {
        assert(t.contains(t[k]));
        assert(t.to_multiset().count(t[k]) > 0);
        assert(s.contains(t[k]));
    }
}

proof fn lemma_sorted_seq_within(s: Seq<i32>, lo: i32, hi: i32)
    requires
        all_within(s, lo, hi),
    ensures
        all_within(sorted_seq(s), lo, hi),
        sorted_by(sorted_seq(s), ascending()),
        sorted_seq(s).len() == s.len(),
{
    crate::sorting::lemma_ascending_total();
    s.lemma_sort_by_ensures(ascending());
    lemma_same_elements_within(s, sorted_seq(s), lo, hi);
    assert(sorted_seq(s).to_multiset().len() == s.to_multiset().len());
}

fn draw_all(n: usize, rng: &mut rand::rngs::StdRng, lo: i32, hi: i32) -> (r: Vec<i32>)
    requires
        lo <= hi,
    ensures
        r@.len() == n,
        all_within(r@, lo, hi),
{
    let mut v: Vec<i32> = Vec::new();
    let mut i: usize = 0;
    while i < n
        invariant
            lo <= hi,
            i <= n,
            v@.len() == i,
            all_within(v@, lo, hi),
        decreases n - i,
    {
        let x = draw_i32(rng, lo, hi);
        v.push(x);
        i = i + 1;
    }
    v
}

/// `n` integers drawn uniformly from `RANDOM_MIN..=RANDOM_MAX`.
pub fn gen_random(n: usize, rng: &mut rand::rngs::StdRng) -> (r: Vec<i32>)
    ensures
        r@.len() == n,
        all_within(r@, RANDOM_MIN, RANDOM_MAX),
{
    draw_all(n, rng, RANDOM_MIN, RANDOM_MAX)
}

/// `n` uniform integers, in ascending order.
pub fn gen_sorted(n: usize, rng: &mut rand::rngs::StdRng) -> (r: Vec<i32>)
    ensures
        r@.len() == n,
        all_within(r@, RANDOM_MIN, RANDOM_MAX),
        sorted_by(r@, ascending()),
{
    let mut v = gen_random(n, rng);
    let ghost drawn = v@;
    sort_in_place(&mut v);
    proof {
        lemma_sorted_seq_within(drawn, RANDOM_MIN, RANDOM_MAX);
    }
    v
}

/// `n` uniform integers, in descending order.
pub fn gen_reversed(n: usize, rng: &mut rand::rngs::StdRng) -> (r: Vec<i32>)
    ensures
        r@.len() == n,
        all_within(r@, RANDOM_MIN, RANDOM_MAX),
        sorted_by(r@, descending()),
{
    let v = gen_sorted(n, rng);
    let mut r: Vec<i32> = Vec::new();
    let mut i: usize = n;
    while i > 0
        invariant
            i <= n,
            v@.len() == n,
            all_within(v@, RANDOM_MIN, RANDOM_MAX),
            sorted_by(v@, ascending()),
            r@.len() == n - i,
            forall|k: int| 0 <= k < r@.len() ==> #[trigger] r@[k] == v@[n - 1 - k],
        decreases i,
    {
        i = i - 1;
        r.push(v[i]);
    }
    assert forall|a: int, b: int| 0 <= a < b < r@.len() implies #[trigger] descending()(
        r@[a],
        r@[b],
    ) by {
        assert(r@[a] == v@[n - 1 - a]);
        assert(r@[b] == v@[n - 1 - b]);
        assert(ascending()(v@[n - 1 - b], v@[n - 1 - a]));
    }
    assert forall|k: int| 0 <= k < r@.len() implies RANDOM_MIN <= #[trigger] r@[k]
        <= RANDOM_MAX by {
        assert(r@[k] == v@[n - 1 - k]);
    }
    r
}

/// `s` with the values at positions `i` and `j` exchanged.
pub open spec fn swap_at(s: Seq<i32>, i: int, j: int) -> Seq<i32> {
    s.update(i, s[j]).update(j, s[i])
}

/// `s` after the transpositions of `pairs`, applied first to last.
pub open spec fn swapped(s: Seq<i32>, pairs: Seq<(usize, usize)>) -> Seq<i32>
    decreases pairs.len(),
{
    if pairs.len() == 0 {
        s
    } else {
        swap_at(swapped(s, pairs.drop_last()), pairs.last().0 as int, pairs.last().1 as int)
    }
}

/// Exchanges the values at each pair of positions of `pairs`, in order. Every
/// exchange moves at most two values, and no value is lost or added.
pub fn apply_swaps(v: &mut Vec<i32>, pairs: &Vec<(usize, usize)>)
    requires
        forall|k: int|
            0 <= k < pairs@.len() ==> (#[trigger] pairs@[k]).0 < old(v)@.len() && pairs@[k].1
                < old(v)@.len(),
    ensures
        final(v)@ == swapped(old(v)@, pairs@),
        final(v)@.len() == old(v)@.len(),
        final(v)@.to_multiset() == old(v)@.to_multiset(),
        displaced(final(v)@, old(v)@) <= 2 * pairs@.len(),
{
    let ghost base = v@;
    let n = v.len();
    proof {
        lemma_displaced_same(base, n as int);
    }
    let mut s: usize = 0;
    while s < pairs.len()
        invariant
            s <= pairs@.len(),
            n == base.len(),
            v@.len() == n,
            forall|k: int|
                0 <= k < pairs@.len() ==> (#[trigger] pairs@[k]).0 < n && pairs@[k].1 < n,
            v@ == swapped(base, pairs@.subrange(0, s as int)),
            v@.to_multiset() == base.to_multiset(),
            displaced(v@, base) <= 2 * s,
        decreases pairs.len() - s,
    {
        let (i, j) = pairs[s];
        let a = v[i];
        let b = v[j];
        let ghost before = v@;
        proof {
            lemma_swap_same_elements(before, i as int, j as int);
            lemma_displaced_upto_update(before, base, i as int, b, n as int);
            lemma_displaced_upto_update(before.update(i as int, b), base, j as int, a, n as int);
            assert(pairs@.subrange(0, s + 1).drop_last() =~= pairs@.subrange(0, s as int));
        }
        v.set(i, b);
        v.set(j, a);
        assert(v@ == before.update(i as int, b).update(j as int, a));
        s = s + 1;
    }
    assert(pairs@.subrange(0, s as int) =~= pairs@);
}

/// `n` uniform integers sorted ascending, then `swap_count(n)` transpositions
/// of two positions drawn uniformly (when `n` is at least 2): at most two
/// positions per transposition differ from the sorted order.
pub fn gen_nearly_sorted(n: usize, rng: &mut rand::rngs::StdRng) -> (r: Vec<i32>)
    ensures
        r@.len() == n,
        all_within(r@, RANDOM_MIN, RANDOM_MAX),
        n <= 1 ==> sorted_by(r@, ascending()),
        displaced(r@, sorted_seq(r@)) <= 2 * swap_count(n as nat),
{
    let mut v = gen_sorted(n, rng);
    let ghost base = v@;
    proof {
        lemma_displaced_same(base, n as int);
        crate::sorting::lemma_sorted_permutation_is_sorted_seq(base, base);
    }
    if n <= 1 {
        return v;
    }
    let swaps: usize = if n / 100 >= 1 { n / 100 } else { 1 };
    let mut pairs: Vec<(usize, usize)> = Vec::new();
    let mut s: usize = 0;
    while s < swaps
        invariant
            s <= swaps,
            swaps == swap_count(n as nat),
            n >= 2,
            pairs@.len() == s,
            forall|k: int| 0 <= k < s ==> (#[trigger] pairs@[k]).0 < n && pairs@[k].1 < n,
        decreases swaps - s,
    {
        let i = draw_usize(rng, 0, n);
        let j = draw_usize(rng, 0, n);
        pairs.push((i, j));
        s = s + 1;
    }
    apply_swaps(&mut v, &pairs);
    proof {
        lemma_same_elements_within(base, v@, RANDOM_MIN, RANDOM_MAX);
        crate::sorting::lemma_sorted_permutation_is_sorted_seq(v@, base);
    }
    v
}

/// `n` integers drawn uniformly from `0..=FEW_VALUES_MAX`.
pub fn gen_few_values(n: usize, rng: &mut rand::rngs::StdRng) -> (r: Vec<i32>)
    ensures
        r@.len() == n,
        all_within(r@, 0, FEW_VALUES_MAX),
{
    draw_all(n, rng, 0, FEW_VALUES_MAX)
}

/// What every array of family `d` and length `n` satisfies.
pub open spec fn shaped_like(d: Distribution, n: nat, s: Seq<i32>) -> bool {
    &&& s.len() == n
    &&& match d {
        Distribution::Random => all_within(s, RANDOM_MIN, RANDOM_MAX),
        Distribution::Sorted => all_within(s, RANDOM_MIN, RANDOM_MAX) && sorted_by(s, ascending()),
        Distribution::Reversed => all_within(s, RANDOM_MIN, RANDOM_MAX) && sorted_by(
            s,
            descending(),
        ),
        Distribution::NearlySorted => all_within(s, RANDOM_MIN, RANDOM_MAX) && (n <= 1 ==> sorted_by(
            s,
            ascending(),
        )) && displaced(s, sorted_seq(s)) <= 2 * swap_count(n),
        Distribution::FewValues => all_within(s, 0, FEW_VALUES_MAX),
    }
}

/// One array of family `dist` and length `n`.
pub fn make_array(dist: Distribution, n: usize, rng: &mut rand::rngs::StdRng) -> (r: Vec<i32>)
    ensures
        shaped_like(dist, n as nat, r@),
{
    match dist {
        Distribution::Random => gen_random(n, rng),
        Distribution::Sorted => gen_sorted(n, rng),
        Distribution::Reversed => gen_reversed(n, rng),
        Distribution::NearlySorted => gen_nearly_sorted(n, rng),
        Distribution::FewValues => gen_few_values(n, rng),
    }
}

/// The fixed edge-case arrays, in the order they are run.
pub open spec fn edge_case_seqs() -> Seq<Seq<i32>> {
    seq![
        seq![],
        seq![1i32],
        seq![1i32, 1, 1],
        seq![0i32, -1i32, 5, -1i32],
        seq![2i32, 1],
        seq![2i32, 2, 1, 1],
        seq![5i32, 4, 3, 2, 1],
    ]
}

/// The fixed edge cases: empty, a single element, all equal, mixed signs with a
/// repeat, and short descending runs.
pub fn edge_cases() -> (r: Vec<Vec<i32>>)
    ensures
        r@.len() == edge_case_seqs().len(),
        forall|k: int| 0 <= k < r@.len() ==> (#[trigger] r@[k])@ == edge_case_seqs()[k],
{
    let r = vec![
        vec![],
        vec![1],
        vec![1, 1, 1],
        vec![0, -1, 5, -1],
        vec![2, 1],
        vec![2, 2, 1, 1],
        vec![5, 4, 3, 2, 1],
    ];
    assert(r@[0]@ =~= edge_case_seqs()[0]);
    assert(r@[1]@ =~= edge_case_seqs()[1]);
    assert(r@[2]@ =~= edge_case_seqs()[2]);
    assert(r@[3]@ =~= edge_case_seqs()[3]);
    assert(r@[4]@ =~= edge_case_seqs()[4]);
    assert(r@[5]@ =~= edge_case_seqs()[5]);
    assert(r@[6]@ =~= edge_case_seqs()[6]);
    r
}

} // verus!

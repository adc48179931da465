//! The trusted reference sort and the exact comparison of a candidate's output
//! against it.

use vstd::prelude::*;
use vstd::relations::{sorted_by, total_ordering};
use vstd::seq_lib::lemma_sorted_unique;

verus! {

/// Ascending order on `i32`.
pub open spec fn ascending() -> spec_fn(i32, i32) -> bool {
    |x: i32, y: i32| x <= y
}

/// The ascending rearrangement of `s`: the one sorted sequence with the same
/// elements.
pub open spec fn sorted_seq(s: Seq<i32>) -> Seq<i32> {
    s.sort_by(ascending())
}

pub proof fn lemma_ascending_total()
    ensures
        total_ordering(ascending()),
{
}

/// A sequence that is sorted and holds the elements of `s` is `sorted_seq(s)`.
pub proof fn lemma_sorted_permutation_is_sorted_seq(s: Seq<i32>, t: Seq<i32>)
    requires
        sorted_by(t, ascending()),
        t.to_multiset() == s.to_multiset(),
    ensures
        t == sorted_seq(s),
{
    lemma_ascending_total();
    s.lemma_sort_by_ensures(ascending());
    lemma_sorted_unique(t, sorted_seq(s), ascending());
}

/// Any sorted output that holds exactly the input's elements is equal, element
/// by element, to what the reference sort returns: a correct in-place sort and
/// the reference agree on every input.
pub proof fn lemma_correct_sort_matches_reference(input: Seq<i32>, output: Seq<i32>)
    requires
        sorted_by(output, ascending()),
        output.to_multiset() == input.to_multiset(),
    ensures
        output == sorted_seq(input),
{
    lemma_sorted_permutation_is_sorted_seq(input, output);
}

/// Relies on `slice::sort`: afterwards the vector is in ascending order and
/// holds the same elements as before.
#[verifier::external_body]
fn std_sort_i32(v: &mut Vec<i32>)
    ensures
        sorted_by(final(v)@, ascending()),
        final(v)@.to_multiset() == old(v)@.to_multiset(),
{
    v.sort();
}

/// Sorts `v` in place into ascending order.
pub fn sort_in_place(v: &mut Vec<i32>)
    ensures
        final(v)@ == sorted_seq(old(v)@),
{
    let ghost before = v@;
    std_sort_i32(v);
    proof {
        lemma_sorted_permutation_is_sorted_seq(before, v@);
    }
}

/// The reference result for `input`: a sorted copy, the input left untouched.
pub fn reference_sorted(input: &Vec<i32>) -> (r: Vec<i32>)
    ensures
        r@ == sorted_seq(input@),
{
    let mut r = input.clone();
    sort_in_place(&mut r);
    r
}

/// Whether a candidate's output equals the expected array, element by element
/// and in length.
pub fn arrays_match(got: &Vec<i32>, expected: &Vec<i32>) -> (r: bool)
    ensures
        r == (got@ == expected@),
{
    if got.len() != expected.len() {
        return false;
    }
    let mut i: usize = 0;
    while i < got.len()
        invariant
            got.len() == expected.len(),
            0 <= i <= got.len(),
            forall|k: int| 0 <= k < i ==> got@[k] == expected@[k],
        decreases got.len() - i,
    {
        if got[i] != expected[i] {
            return false;
        }
        i = i + 1;
    }
    assert(got@ =~= expected@);
    true
}

proof fn lemma_insert_multiset(s: Seq<i32>, p: int, x: i32)
    requires
        0 <= p <= s.len(),
    ensures
        s.insert(p, x).to_multiset() == s.to_multiset().insert(x),
{
    broadcast use vstd::seq_lib::group_to_multiset_ensures;
    broadcast use vstd::seq_lib::lemma_multiset_commutative;

    let lo = s.subrange(0, p);
    let hi = s.subrange(p, s.len() as int);
    assert(s =~= lo + hi);
    assert(s.insert(p, x) =~= lo.push(x) + hi);
    assert(s.insert(p, x).to_multiset() =~= s.to_multiset().insert(x));
}

/// Sorts `a` in place by insertion: each element in turn is placed after every
/// kept element that is not greater than it.
pub fn insertion_sort(a: &mut Vec<i32>)
    ensures
        final(a)@ == sorted_seq(old(a)@),
{
    let mut out: Vec<i32> = Vec::new();
    let mut i: usize = 0;
    assert(a@.subrange(0, 0) =~= out@);
    while i < a.len()
        invariant
            i <= a@.len(),
            sorted_by(out@, ascending()),
            out@.to_multiset() == a@.subrange(0, i as int).to_multiset(),
        decreases a.len() - i,
    {
        broadcast use vstd::seq_lib::group_to_multiset_ensures;

        let x = a[i];
        let mut p: usize = 0;
        while p < out.len() && out[p] <= x
            invariant
                p <= out@.len(),
                forall|k: int| 0 <= k < p ==> out@[k] <= x,
            decreases out.len() - p,
        {
            p = p + 1;
        }
        let ghost before = out@;
        proof {
            lemma_insert_multiset(before, p as int, x);
            assert(a@.subrange(0, i + 1) =~= a@.subrange(0, i as int).push(x));
        }
        out.insert(p, x);
        assert forall|j: int, k: int| 0 <= j < k < out@.len() implies #[trigger] ascending()(
            out@[j],
            out@[k],
        ) by {
            before.insert_ensures(p as int, x);
            if k == p {
                assert(before[j] <= x);
            } else if j == p {
                assert(p < before.len());
                assert(before[p as int] > x);
                assert(ascending()(before[p as int], before[k - 1]) || k - 1 == p);
            } else if j < p && k > p {
                assert(before[j] <= x);
                assert(ascending()(before[j], before[k - 1]));
            } else if k < p {
                assert(ascending()(before[j], before[k]));
            } else {
                assert(ascending()(before[j - 1], before[k - 1]));
            }
        }
        i = i + 1;
    }
    proof {
        assert(a@.subrange(0, i as int) =~= a@);
        lemma_sorted_permutation_is_sorted_seq(a@, out@);
    }
    *a = out;
}

} // verus!

//! Summaries of per-trial timings, in whole nanoseconds: median, mean, minimum
//! and maximum.

use vstd::prelude::*;
use vstd::relations::{sorted_by, total_ordering};
use vstd::seq_lib::lemma_sorted_unique;

verus! {

/// Ascending order on `u64`.
pub open spec fn ascending_u64() -> spec_fn(u64, u64) -> bool {
    |x: u64, y: u64| x <= y
}

/// The ascending rearrangement of `s`.
pub open spec fn sorted_u64(s: Seq<u64>) -> Seq<u64> {
    s.sort_by(ascending_u64())
}

/// The sum of `s`.
pub open spec fn seq_sum(s: Seq<u64>) -> int
    decreases s.len(),
{
    if s.len() == 0 {
        0
    } else {
        seq_sum(s.drop_last()) + s.last()
    }
}

/// The median of a sorted, non-empty `t`: its middle value for an odd count,
/// the mean of its two middle values (rounded down) for an even count.
pub open spec fn median_of_sorted(t: Seq<u64>) -> int {
    let m = t.len() as int / 2;
    if t.len() % 2 == 1 {
        t[m] as int
    } else {
        (t[m - 1] + t[m]) / 2
    }
}

/// Statistics over the trials of one configuration.
#[derive(Clone, Copy, Debug, PartialEq, Eq, Structural)]
pub struct TimingSummary {
    pub runs: usize,
    pub median_ns: u64,
    pub mean_ns: u64,
    pub min_ns: u64,
    pub max_ns: u64,
}

/// What `s` summarizes of a non-empty `d`.
pub open spec fn summarizes(s: TimingSummary, d: Seq<u64>) -> bool {
    let t = sorted_u64(d);
    &&& s.runs == d.len()
    &&& s.median_ns == median_of_sorted(t)
    &&& s.mean_ns == seq_sum(d) / d.len() as int
    &&& s.min_ns == t[0]
    &&& s.max_ns == t[t.len() - 1]
}

/// Relies on `slice::sort`: afterwards the vector is in ascending order and
/// holds the same elements as before.
#[verifier::external_body]
fn std_sort_u64(v: &mut Vec<u64>)
    ensures
        sorted_by(final(v)@, ascending_u64()),
        final(v)@.to_multiset() == old(v)@.to_multiset(),
{
    v.sort();
}

proof fn lemma_sorted_u64_is(s: Seq<u64>, t: Seq<u64>)
    requires
        sorted_by(t, ascending_u64()),
        t.to_multiset() == s.to_multiset(),
    ensures
        t == sorted_u64(s),
        t.len() == s.len(),
{
    assert(total_ordering(ascending_u64()));
    s.lemma_sort_by_ensures(ascending_u64());
    lemma_sorted_unique(t, sorted_u64(s), ascending_u64());
    t.to_multiset_ensures();
    s.to_multiset_ensures();
}

proof fn lemma_sum_bound(s: Seq<u64>)
    ensures
        0 <= seq_sum(s) <= s.len() * 0xffff_ffff_ffff_ffff,
    decreases s.len(),
{
    if s.len() > 0 {
        lemma_sum_bound(s.drop_last());
    }
}

/// The sum of `d`, exactly.
fn sum_u128(d: &Vec<u64>) -> (r: u128)
    ensures
        r as int == seq_sum(d@),
{
    let mut sum: u128 = 0;
    let mut i: usize = 0;
    while i < d.len()
        invariant
            i <= d@.len(),
            sum as int == seq_sum(d@.subrange(0, i as int)),
        decreases d.len() - i,
    {
        assert(d@.subrange(0, i + 1).drop_last() =~= d@.subrange(0, i as int));
        proof {
            lemma_sum_bound(d@.subrange(0, i + 1));
            assert((i + 1) * 0xffff_ffff_ffff_ffffint <= 0x1_0000_0000_0000_0000int
                * 0xffff_ffff_ffff_ffffint) by (nonlinear_arith)
                requires
                    i + 1 <= 0x1_0000_0000_0000_0000int,
            ;
        }
        sum = sum + d[i] as u128;
        i = i + 1;
    }
    assert(d@.subrange(0, i as int) =~= d@);
    sum
}

/// Median, mean, minimum and maximum of the trial durations `d`; `None` when
/// there are no trials.
pub fn summarize(d: &Vec<u64>) -> (r: Option<TimingSummary>)
    ensures
        r.is_none() <==> d@.len() == 0,
        r matches Some(s) ==> summarizes(s, d@),
{
    let n = d.len();
    if n == 0 {
        return None;
    }
    let mut t = d.clone();
    assert(t@ == d@);
    std_sort_u64(&mut t);
    proof {
        lemma_sorted_u64_is(d@, t@);
    }
    let min = t[0];
    let max = t[n - 1];
    let median: u64 = if n % 2 == 1 {
        t[n / 2]
    } else {
        let a = t[n / 2 - 1];
        let b = t[n / 2];
        assert(ascending_u64()(a, b));
        a + (b - a) / 2
    };
    let sum = sum_u128(d);
    proof {
        lemma_sum_bound(d@);
        assert(seq_sum(d@) / n as int <= 0xffff_ffff_ffff_ffffint) by (nonlinear_arith)
            requires
                0 <= seq_sum(d@) <= n * 0xffff_ffff_ffff_ffffint,
                n > 0,
        ;
    }
    let mean = (sum / n as u128) as u64;
    Some(TimingSummary { runs: n, median_ns: median, mean_ns: mean, min_ns: min, max_ns: max })
}

/// The summary is ordered: the minimum is at most the median and the mean, and
/// both are at most the maximum.
pub proof fn lemma_summary_ordered(s: TimingSummary, d: Seq<u64>)
    requires
        d.len() > 0,
        summarizes(s, d),
    ensures
        s.min_ns <= s.median_ns <= s.max_ns,
        s.min_ns <= s.mean_ns <= s.max_ns,
{
    let t = sorted_u64(d);
    assert(total_ordering(ascending_u64()));
    d.lemma_sort_by_ensures(ascending_u64());
    lemma_sorted_u64_is(d, t);
    let n = t.len() as int;
    assert(ascending_u64()(t[0], t[n / 2]) || n / 2 == 0);
    assert(ascending_u64()(t[n / 2], t[n - 1]) || n / 2 == n - 1);
    if n % 2 == 0 {
        assert(ascending_u64()(t[0], t[n / 2 - 1]) || n / 2 - 1 == 0);
        assert(ascending_u64()(t[n / 2 - 1], t[n - 1]));
    }
    assert forall|k: int| 0 <= k < d.len() implies t[0] <= #[trigger] d[k] <= t[n - 1] by {
        broadcast use vstd::seq_lib::group_to_multiset_ensures;

        assert(d.contains(d[k]));
        assert(t.to_multiset().count(d[k]) > 0);
        assert(t.contains(d[k]));
        let j = choose|j: int| 0 <= j < t.len() && t[j] == d[k];
        assert(ascending_u64()(t[0], t[j]) || j == 0);
        assert(ascending_u64()(t[j], t[n - 1]) || j == n - 1);
    }
    lemma_sum_between(d, t[0], t[n - 1]);
    assert(n * t[0] <= seq_sum(d) <= n * t[n - 1]);
    assert(t[0] <= seq_sum(d) / n as int <= t[n - 1]) by (nonlinear_arith)
        requires
            n * t[0] <= seq_sum(d) <= n * t[n - 1],
            n > 0,
    ;
}

proof fn lemma_sum_between(t: Seq<u64>, lo: u64, hi: u64)
    requires
        forall|k: int| 0 <= k < t.len() ==> lo <= #[trigger] t[k] <= hi,
    ensures
        t.len() * lo <= seq_sum(t) <= t.len() * hi,
    decreases t.len(),
{
    if t.len() > 0 {
        lemma_sum_between(t.drop_last(), lo, hi);
        assert(t.len() * lo == (t.len() - 1) * lo + lo) by (nonlinear_arith);
        assert(t.len() * hi == (t.len() - 1) * hi + hi) by (nonlinear_arith);
    }
}

} // verus!

//! Outcomes of running a candidate on one input, and the per-candidate tally of
//! tests, mismatches and crashes.

use vstd::prelude::*;

verus! {

/// What one run of a candidate came to.
#[derive(Clone, Copy, Debug, PartialEq, Eq, Structural)]
pub enum Outcome {
    /// It completed and its result matched the oracle.
    Passed,
    /// It completed with a result that differs from the oracle.
    Mismatch,
    /// It terminated abnormally.
    Crashed,
}

/// The outcome of one run: `None` when the candidate did not complete, else
/// whether its result matched.
pub fn classify_run(result: Option<bool>) -> (r: Outcome)
    ensures
        r == match result {
            None => Outcome::Crashed,
            Some(true) => Outcome::Passed,
            Some(false) => Outcome::Mismatch,
        },
{
    match result {
        None => Outcome::Crashed,
        Some(true) => Outcome::Passed,
        Some(false) => Outcome::Mismatch,
    }
}

/// How many entries of `s` are `o`.
pub open spec fn count_of(s: Seq<Outcome>, o: Outcome) -> nat
    decreases s.len(),
{
    if s.len() == 0 {
        0
    } else {
        count_of(s.drop_last(), o) + if s.last() == o { 1nat } else { 0nat }
    }
}

/// Counts over the runs of one candidate.
#[derive(Clone, Copy, Debug, PartialEq, Eq, Structural)]
pub struct Tally {
    pub tests: u64,
    pub failures: u64,
    pub crashes: u64,
}

impl Tally {
    /// A tally of no runs.
    pub fn new() -> (t: Tally)
        ensures
            t.tests == 0 && t.failures == 0 && t.crashes == 0,
    {
        Tally { tests: 0, failures: 0, crashes: 0 }
    }

    /// Counts one more run: a test always, a failure on a mismatch, a crash on
    /// an abnormal termination.
    pub fn record(&mut self, o: Outcome)
        requires
            old(self).tests < u64::MAX,
            old(self).failures <= old(self).tests,
            old(self).crashes <= old(self).tests,
        ensures
            final(self).tests == old(self).tests + 1,
            final(self).failures == old(self).failures + if o == Outcome::Mismatch { 1int } else { 0int },
            final(self).crashes == old(self).crashes + if o == Outcome::Crashed { 1int } else { 0int },
            final(self).failures <= final(self).tests,
            final(self).crashes <= final(self).tests,
    {
        self.tests = self.tests + 1;
        match o {
            Outcome::Passed => {},
            Outcome::Mismatch => {
                self.failures = self.failures + 1;
            },
            Outcome::Crashed => {
                self.crashes = self.crashes + 1;
            },
        }
    }
}

/// The tally of a whole sequence of runs: every run is a test, whatever came
/// of the runs before it, and each abnormal termination adds exactly one crash.
pub fn tally_outcomes(outcomes: &Vec<Outcome>) -> (t: Tally)
    requires
        outcomes@.len() <= u64::MAX,
    ensures
        t.tests == outcomes@.len(),
        t.failures == count_of(outcomes@, Outcome::Mismatch),
        t.crashes == count_of(outcomes@, Outcome::Crashed),
{
    let mut t = Tally::new();
    let mut i: usize = 0;
    while i < outcomes.len()
        invariant
            i <= outcomes@.len() <= u64::MAX,
            t.tests == i,
            t.failures == count_of(outcomes@.subrange(0, i as int), Outcome::Mismatch),
            t.crashes == count_of(outcomes@.subrange(0, i as int), Outcome::Crashed),
            t.failures <= t.tests,
            t.crashes <= t.tests,
        decreases outcomes.len() - i,
    {
        assert(outcomes@.subrange(0, i + 1).drop_last() =~= outcomes@.subrange(0, i as int));
        t.record(outcomes[i]);
        i = i + 1;
    }
    assert(outcomes@.subrange(0, i as int) =~= outcomes@);
    t
}

/// A crash on one run leaves the runs after it counted: appending runs after a
/// crash adds one test per run, and the crash stays counted once.
pub proof fn lemma_crash_counted_once(before: Seq<Outcome>, after: Seq<Outcome>)
    ensures
        count_of(before.push(Outcome::Crashed) + after, Outcome::Crashed) == count_of(
            before,
            Outcome::Crashed,
        ) + 1 + count_of(after, Outcome::Crashed),
        (before.push(Outcome::Crashed) + after).len() == before.len() + 1 + after.len(),
    decreases after.len(),
{
    let s = before.push(Outcome::Crashed);
    if after.len() == 0 {
        assert(s + after =~= s);
        assert(s.drop_last() =~= before);
    } else {
        lemma_crash_counted_once(before, after.drop_last());
        assert((s + after).drop_last() =~= s + after.drop_last());
    }
}

} // verus!

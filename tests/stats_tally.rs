use algo_harness::report::{path_csv_header, path_csv_row, sort_csv_header, sort_csv_row};
use algo_harness::stats::{summarize, TimingSummary};
use algo_harness::tally::{classify_run, tally_outcomes, Outcome, Tally};

#[test]
fn five_trials_median_and_mean() {
    let d = vec![1_000_000u64, 3_000_000, 2_000_000, 5_000_000, 4_000_000];
    let s = summarize(&d).unwrap();
    assert_eq!(s.median_ns, 3_000_000);
    assert_eq!(s.mean_ns, 3_000_000);
    assert_eq!(s.min_ns, 1_000_000);
    assert_eq!(s.max_ns, 5_000_000);
    assert_eq!(s.runs, 5);
}

#[test]
fn even_count_median_averages_the_middle() {
    let s = summarize(&vec![40u64, 10, 30, 20]).unwrap();
    assert_eq!(s.median_ns, 25);
    assert_eq!(s.mean_ns, 25);
    let t = summarize(&vec![7u64, 2]).unwrap();
    assert_eq!(t.median_ns, 4);
    assert_eq!(t.mean_ns, 4);
}

#[test]
fn no_trials_no_summary() {
    assert_eq!(summarize(&vec![]), None);
    let one = summarize(&vec![u64::MAX]).unwrap();
    assert_eq!(one.median_ns, u64::MAX);
    assert_eq!(one.mean_ns, u64::MAX);
    let big = summarize(&vec![u64::MAX, u64::MAX - 2]).unwrap();
    assert_eq!(big.median_ns, u64::MAX - 1);
    assert_eq!(big.mean_ns, u64::MAX - 1);
}

#[test]
fn crash_counted_once_and_later_runs_still_tested() {
    let outcomes = vec![Outcome::Passed, Outcome::Crashed, Outcome::Passed, Outcome::Mismatch, Outcome::Passed];
    let t = tally_outcomes(&outcomes);
    assert_eq!(t, Tally { tests: 5, failures: 1, crashes: 1 });
    let mut u = Tally::new();
    u.record(Outcome::Crashed);
    u.record(Outcome::Crashed);
    u.record(Outcome::Passed);
    assert_eq!(u, Tally { tests: 3, failures: 0, crashes: 2 });
}

#[test]
fn run_results_classified() {
    assert_eq!(classify_run(None), Outcome::Crashed);
    assert_eq!(classify_run(Some(true)), Outcome::Passed);
    assert_eq!(classify_run(Some(false)), Outcome::Mismatch);
}

#[test]
fn table_rows_have_nine_decimals() {
    let s = TimingSummary { runs: 10, median_ns: 1_234_567, mean_ns: 2_000_000_001, min_ns: 0, max_ns: 15_000_000_000 };
    let row = String::from_utf8(sort_csv_row("insertion", "few_values", 5000, &s)).unwrap();
    assert_eq!(row, "insertion,few_values,5000,10,0.001234567,2.000000001,0.000000000,15.000000000\n");
    let prow = String::from_utf8(path_csv_row("reference", 100, 50_000, &s)).unwrap();
    assert_eq!(prow, "reference,100,0.05,10,0.001234567,2.000000001\n");
    assert_eq!(
        String::from_utf8(sort_csv_header()).unwrap(),
        "algorithm,distribution,n,runs,median_sec,mean_sec,min_sec,max_sec\n"
    );
    assert_eq!(
        String::from_utf8(path_csv_header()).unwrap(),
        "algorithm,num_nodes,edge_prob,runs,median_sec,mean_sec\n"
    );
}

#[test]
fn path_row_writes_shortest_probability() {
    let s = TimingSummary { runs: 5, median_ns: 3_000_000, mean_ns: 3_500_000, min_ns: 1, max_ns: 9 };
    let row = |p: u64| String::from_utf8(path_csv_row("a", 100, p, &s)).unwrap();
    assert_eq!(row(50_000), "a,100,0.05,5,0.003000000,0.003500000\n");
    assert_eq!(row(100_000), "a,100,0.1,5,0.003000000,0.003500000\n");
    assert_eq!(row(200_000), "a,100,0.2,5,0.003000000,0.003500000\n");
    assert_eq!(row(1_000_000), "a,100,1,5,0.003000000,0.003500000\n");
    assert_eq!(row(0), "a,100,0,5,0.003000000,0.003500000\n");
    assert_eq!(row(123_456), "a,100,0.123456,5,0.003000000,0.003500000\n");
    assert_eq!(row(2_000_001), "a,100,2.000001,5,0.003000000,0.003500000\n");
}

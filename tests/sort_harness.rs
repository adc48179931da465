use algo_harness::arrays::{
    apply_swaps,
    edge_cases, gen_few_values, gen_nearly_sorted, gen_random, gen_reversed, gen_sorted,
    make_array, Distribution,
};
use algo_harness::harness::{algorithms, all_distributions, check_sort_run, precompute_inputs, SortCandidate};
use algo_harness::sorting::{arrays_match, insertion_sort, reference_sorted, sort_in_place};
use algo_harness::tally::Outcome;
use rand::rngs::StdRng;
use rand::SeedableRng;

fn is_ascending(v: &[i32]) -> bool {
    v.windows(2).all(|w| w[0] <= w[1])
}

#[test]
fn few_values_same_seed_same_contents() {
    let mut a = StdRng::seed_from_u64(1);
    let mut b = StdRng::seed_from_u64(1);
    for &n in &[0usize, 1, 2, 5, 10, 100, 1000] {
        let x = gen_few_values(n, &mut a);
        let y = gen_few_values(n, &mut b);
        assert_eq!(x, y);
    }
}

#[test]
fn every_distribution_same_seed_same_contents() {
    let mut a = StdRng::seed_from_u64(7);
    let mut b = StdRng::seed_from_u64(7);
    for d in all_distributions() {
        assert_eq!(make_array(d, 257, &mut a), make_array(d, 257, &mut b));
    }
}

#[test]
fn generators_respect_their_shapes() {
    let mut rng = StdRng::seed_from_u64(3);
    let r = gen_random(500, &mut rng);
    assert_eq!(r.len(), 500);
    assert!(r.iter().all(|&x| (-1_000_000..=1_000_000).contains(&x)));
    let s = gen_sorted(500, &mut rng);
    assert!(is_ascending(&s));
    let rev = gen_reversed(500, &mut rng);
    assert!(rev.windows(2).all(|w| w[0] >= w[1]));
    let f = gen_few_values(500, &mut rng);
    assert!(f.iter().all(|&x| (0..=9).contains(&x)));
    assert!(f.iter().any(|&x| x != f[0]));
    let ns = gen_nearly_sorted(500, &mut rng);
    assert_eq!(ns.len(), 500);
    assert!(ns.iter().all(|&x| (-1_000_000..=1_000_000).contains(&x)));
}

#[test]
fn nearly_sorted_is_a_few_swaps_from_sorted() {
    let mut a = StdRng::seed_from_u64(11);
    let v = gen_nearly_sorted(1000, &mut a);
    let sorted = reference_sorted(&v);
    let out_of_place = v.iter().zip(sorted.iter()).filter(|(x, y)| x != y).count();
    assert!(out_of_place <= 2 * 10);
    let mut b = StdRng::seed_from_u64(11);
    assert_eq!(gen_sorted(1000, &mut b), sorted);
}

#[test]
fn tiny_nearly_sorted_stays_sorted() {
    let mut rng = StdRng::seed_from_u64(5);
    assert!(gen_nearly_sorted(0, &mut rng).is_empty());
    assert_eq!(gen_nearly_sorted(1, &mut rng).len(), 1);
}

#[test]
fn edge_cases_are_the_fixed_list() {
    let e = edge_cases();
    assert_eq!(
        e,
        vec![
            vec![],
            vec![1],
            vec![1, 1, 1],
            vec![0, -1, 5, -1],
            vec![2, 1],
            vec![2, 2, 1, 1],
            vec![5, 4, 3, 2, 1],
        ]
    );
}

#[test]
fn edge_cases_sort_without_mismatch() {
    for c in algorithms() {
        for case in edge_cases() {
            let mut arr = case.clone();
            c.run(&mut arr);
            assert_eq!(check_sort_run(&case, Some(arr)), Outcome::Passed);
        }
    }
    let mut empty: Vec<i32> = vec![];
    insertion_sort(&mut empty);
    assert!(empty.is_empty());
    let mut one = vec![1];
    insertion_sort(&mut one);
    assert_eq!(one, vec![1]);
    let mut same = vec![1, 1, 1];
    insertion_sort(&mut same);
    assert_eq!(same, vec![1, 1, 1]);
    let mut two = vec![2, 1];
    insertion_sort(&mut two);
    assert_eq!(two, vec![1, 2]);
    let mut five = vec![5, 4, 3, 2, 1];
    sort_in_place(&mut five);
    assert_eq!(five, vec![1, 2, 3, 4, 5]);
}

#[test]
fn correct_candidates_match_reference_on_all_families() {
    let mut rng = StdRng::seed_from_u64(1);
    for d in all_distributions() {
        for &n in &[0usize, 1, 2, 5, 10, 100, 1000] {
            for _ in 0..3 {
                let input = make_array(d, n, &mut rng);
                for c in algorithms() {
                    let mut arr = input.clone();
                    c.run(&mut arr);
                    assert_eq!(arr, reference_sorted(&input));
                    assert_eq!(check_sort_run(&input, Some(arr)), Outcome::Passed);
                }
            }
        }
    }
}

#[test]
fn reference_sort_orders_and_leaves_input() {
    let input = vec![3, -7, 3, 0, 12, -1];
    let r = reference_sorted(&input);
    assert_eq!(r, vec![-7, -1, 0, 3, 3, 12]);
    assert_eq!(input, vec![3, -7, 3, 0, 12, -1]);
}

#[test]
fn wrong_or_crashed_runs_are_told_apart() {
    let input = vec![2, 1, 3];
    assert_eq!(check_sort_run(&input, Some(vec![1, 2, 3])), Outcome::Passed);
    assert_eq!(check_sort_run(&input, Some(vec![2, 1, 3])), Outcome::Mismatch);
    assert_eq!(check_sort_run(&input, Some(vec![1, 2])), Outcome::Mismatch);
    assert_eq!(check_sort_run(&input, None), Outcome::Crashed);
}

#[test]
fn arrays_match_is_exact() {
    assert!(arrays_match(&vec![1, 2], &vec![1, 2]));
    assert!(!arrays_match(&vec![1, 2], &vec![1, 2, 3]));
    assert!(!arrays_match(&vec![1, 3], &vec![1, 2]));
    assert!(arrays_match(&vec![], &vec![]));
}

#[test]
fn registry_order_and_names() {
    let a = algorithms();
    assert_eq!(a, vec![SortCandidate::Insertion, SortCandidate::Standard]);
    assert_eq!(a[0].name(), "insertion");
    assert_eq!(a[1].name(), "standard");
    let names: Vec<&str> = all_distributions().iter().map(|d| d.name()).collect();
    assert_eq!(names, vec!["random", "sorted", "reversed", "nearly_sorted", "few_values"]);
    assert_eq!(Distribution::FewValues.name(), "few_values");
}

#[test]
fn precomputed_pool_is_laid_out_by_family_then_size() {
    let mut rng = StdRng::seed_from_u64(1);
    let sizes = vec![3usize, 8];
    let sets = precompute_inputs(&mut rng, &sizes, 4);
    assert_eq!(sets.len(), 10);
    let dists = all_distributions();
    for (i, s) in sets.iter().enumerate() {
        assert_eq!(s.dist, dists[i / 2]);
        assert_eq!(s.n, sizes[i % 2]);
        assert_eq!(s.runs.len(), 4);
        assert!(s.runs.iter().all(|r| r.len() == s.n));
    }
    let mut again = StdRng::seed_from_u64(1);
    let sets2 = precompute_inputs(&mut again, &sizes, 4);
    for (a, b) in sets.iter().zip(sets2.iter()) {
        assert_eq!(a.runs, b.runs);
    }
}

#[test]
fn swaps_apply_in_order() {
    let mut v = vec![1, 2, 3, 4];
    apply_swaps(&mut v, &vec![(0, 3), (1, 1), (3, 2)]);
    assert_eq!(v, vec![4, 2, 1, 3]);
    let mut w = vec![5];
    apply_swaps(&mut w, &vec![]);
    assert_eq!(w, vec![5]);
}

use algo_harness::distances::{approx_equal, candidate_matches, distances_match, lookup_entry, normalize};
use algo_harness::graph::{edge_decision, gen_random_graph, Edge, Graph, MAX_WEIGHT, PROB_SCALE, WEIGHT_UNIT};
use algo_harness::harness::check_path_run;
use algo_harness::shortest::dijkstra_reference_lib;
use algo_harness::tally::Outcome;
use rand::rngs::StdRng;
use rand::{Rng, SeedableRng};

fn e(from: usize, to: usize, weight: u64) -> Edge {
    Edge { from, to, weight }
}

fn small_graph() -> Graph {
    Graph {
        num_nodes: 4,
        edges: vec![
            e(0, 1, 2 * WEIGHT_UNIT),
            e(0, 2, 10 * WEIGHT_UNIT),
            e(1, 2, 3 * WEIGHT_UNIT),
            e(2, 0, WEIGHT_UNIT),
        ],
    }
}

fn as_entries(d: &[Option<u64>]) -> Vec<(usize, u64)> {
    d.iter().enumerate().filter_map(|(i, x)| x.map(|v| (i, v))).collect()
}

#[test]
fn oracle_gives_shortest_distances() {
    let g = small_graph();
    let d = dijkstra_reference_lib(&g, 0).unwrap();
    assert_eq!(d, vec![Some(0), Some(2 * WEIGHT_UNIT), Some(5 * WEIGHT_UNIT), None]);
    let from2 = dijkstra_reference_lib(&g, 2).unwrap();
    assert_eq!(from2, vec![Some(WEIGHT_UNIT), Some(3 * WEIGHT_UNIT), Some(0), None]);
}

#[test]
fn source_outside_graph_reaches_nothing() {
    let g = small_graph();
    assert_eq!(dijkstra_reference_lib(&g, 9).unwrap(), vec![None, None, None, None]);
}

#[test]
fn oracle_refuses_overflowing_weights() {
    let g = Graph { num_nodes: 3, edges: vec![e(0, 1, u64::MAX / 2), e(1, 2, u64::MAX / 2)] };
    assert_eq!(dijkstra_reference_lib(&g, 0), None);
    assert_eq!(check_path_run(&g, 0, None), None);
}

#[test]
fn random_graphs_agree_with_exact_candidate() {
    let mut rng = StdRng::seed_from_u64(1);
    for _ in 0..100 {
        let g = gen_random_graph(&mut rng, 20, 200_000);
        let source = rng.gen_range(0..20);
        let d = dijkstra_reference_lib(&g, source).unwrap();
        assert_eq!(d[source], Some(0));
        assert_eq!(check_path_run(&g, source, Some(as_entries(&d))), Some(Outcome::Passed));
        assert!(candidate_matches(&d, &as_entries(&d)));
    }
}

#[test]
fn wrong_candidate_is_a_mismatch_and_missing_is_a_crash() {
    let g = small_graph();
    let wrong = vec![(0, 0), (1, 2 * WEIGHT_UNIT), (2, 10 * WEIGHT_UNIT)];
    assert_eq!(check_path_run(&g, 0, Some(wrong)), Some(Outcome::Mismatch));
    let claims_unreachable_reached = vec![(0, 0), (1, 2 * WEIGHT_UNIT), (2, 5 * WEIGHT_UNIT), (3, 1)];
    assert_eq!(check_path_run(&g, 0, Some(claims_unreachable_reached)), Some(Outcome::Mismatch));
    assert_eq!(check_path_run(&g, 0, None), Some(Outcome::Crashed));
}

#[test]
fn generated_graph_shape() {
    let mut rng = StdRng::seed_from_u64(2);
    let g = gen_random_graph(&mut rng, 30, 500_000);
    assert_eq!(g.num_nodes, 30);
    assert!(!g.edges.is_empty());
    for w in g.edges.windows(2) {
        assert!((w[0].from, w[0].to) < (w[1].from, w[1].to));
    }
    for x in &g.edges {
        assert!(x.from != x.to && x.from < 30 && x.to < 30 && x.weight < MAX_WEIGHT);
    }
    let none = gen_random_graph(&mut rng, 30, 0);
    assert!(none.edges.is_empty());
    let all = gen_random_graph(&mut rng, 6, PROB_SCALE);
    assert_eq!(all.edges.len(), 30);
}

#[test]
fn same_seed_same_graph() {
    let mut a = StdRng::seed_from_u64(9);
    let mut b = StdRng::seed_from_u64(9);
    assert_eq!(gen_random_graph(&mut a, 15, 300_000).edges, gen_random_graph(&mut b, 15, 300_000).edges);
}

#[test]
fn tolerance_boundary_is_inclusive() {
    let a = 3_000_000_000_000u64;
    assert!(approx_equal(Some(a), Some(a + 3000)));
    assert!(!approx_equal(Some(a), Some(a + 3001)));
    assert!(approx_equal(Some(a + 3000), Some(a)));
    assert!(approx_equal(Some(5), Some(6)));
    assert!(!approx_equal(Some(5), Some(7)));
    assert!(approx_equal(Some(0), Some(1)));
}

#[test]
fn infinities_compare_only_with_each_other() {
    assert!(approx_equal(None, None));
    assert!(!approx_equal(None, Some(0)));
    assert!(!approx_equal(Some(u64::MAX), None));
    assert!(approx_equal(Some(u64::MAX), Some(u64::MAX - 1000)));
}

#[test]
fn normalize_fills_missing_nodes() {
    let entries = vec![(2usize, 7u64), (0, 1), (2, 9), (8, 4)];
    assert_eq!(normalize(&entries, 4), vec![Some(1), None, Some(7), None]);
    assert_eq!(lookup_entry(&entries, 8), Some(4));
    assert_eq!(lookup_entry(&entries, 5), None);
    assert!(normalize(&entries, 0).is_empty());
}

#[test]
fn distances_match_needs_every_node() {
    let a = vec![Some(1), None, Some(3)];
    assert!(distances_match(&a, &a.clone()));
    assert!(!distances_match(&a, &vec![Some(1), Some(2), Some(3)]));
    assert!(!distances_match(&a, &vec![Some(1), None]));
}

fn relaxation_candidate(g: &Graph, source: usize) -> Vec<(usize, u64)> {
    let mut d: Vec<Option<u64>> = vec![None; g.num_nodes];
    if source >= g.num_nodes {
        return vec![];
    }
    d[source] = Some(0);
    for _ in 0..g.num_nodes {
        for x in &g.edges {
            if let Some(du) = d[x.from] {
                let nd = du + x.weight;
                if d[x.to].map_or(true, |dv| nd < dv) {
                    d[x.to] = Some(nd);
                }
            }
        }
    }
    as_entries(&d)
}

#[test]
fn independent_candidate_agrees_on_hundred_random_graphs() {
    let mut rng = StdRng::seed_from_u64(1);
    let mut t = algo_harness::tally::Tally::new();
    for _ in 0..100 {
        let g = gen_random_graph(&mut rng, 20, 200_000);
        let source = rng.gen_range(0..20);
        let got = relaxation_candidate(&g, source);
        let o = check_path_run(&g, source, Some(got)).unwrap();
        t.record(o);
    }
    assert_eq!((t.tests, t.failures, t.crashes), (100, 0, 0));
}

#[test]
fn probability_one_gives_complete_digraph() {
    let mut rng = StdRng::seed_from_u64(4);
    let g = gen_random_graph(&mut rng, 5, PROB_SCALE);
    let pairs: Vec<(usize, usize)> = g.edges.iter().map(|x| (x.from, x.to)).collect();
    let mut expected = Vec::new();
    for u in 0..5 {
        for v in 0..5 {
            if u != v {
                expected.push((u, v));
            }
        }
    }
    assert_eq!(pairs, expected);
    assert!(gen_random_graph(&mut rng, 0, PROB_SCALE).edges.is_empty());
}

#[test]
fn edge_decision_compares_draw_with_probability() {
    assert!(edge_decision(0, 1));
    assert!(!edge_decision(1, 1));
    assert!(!edge_decision(0, 0));
    assert!(edge_decision(PROB_SCALE - 1, PROB_SCALE));
    assert!(edge_decision(199_999, 200_000));
    assert!(!edge_decision(200_000, 200_000));
}

use what_constitutes_software_query::model::{Language, Metric, MinRatio, ProjectRecord};
use what_constitutes_software_query::sample::{sample_distinct_random, sample_random, top_k};

fn project(id: u64, stars: u64, commits: u64, ratio_reference: u64) -> ProjectRecord {
    ProjectRecord {
        id,
        language: Language::Python,
        stars,
        age_days: 0,
        developers: 0,
        locs: 0,
        snapshot_count: 0,
        commit_count: commits,
        max_h_index: 0,
        ratio_reference,
        default_branch: None,
        heads: None,
    }
}

fn positions(n: usize) -> Vec<usize> {
    (0..n).collect()
}

#[test]
fn random_sampling_is_deterministic() {
    let cand: Vec<usize> = positions(50);
    let a = sample_random(cand.clone(), 10, 0xfeed_beef);
    let b = sample_random(cand.clone(), 10, 0xfeed_beef);
    assert_eq!(a, b);
    assert_eq!(a.len(), 10);
}

#[test]
fn random_sampling_differs_between_seeds() {
    let cand: Vec<usize> = positions(200);
    let a = sample_random(cand.clone(), 20, 1);
    let b = sample_random(cand.clone(), 20, 2);
    assert_ne!(a, b);
}

#[test]
fn random_sampling_without_replacement() {
    let cand: Vec<usize> = positions(30);
    let picked = sample_random(cand, 30, 7);
    assert_eq!(picked.len(), 30);
    let mut seen = picked.clone();
    seen.sort();
    seen.dedup();
    assert_eq!(seen.len(), 30);
}

#[test]
fn random_sampling_short_pool_returns_everything() {
    let cand: Vec<usize> = positions(4);
    let picked = sample_random(cand, 9, 3);
    assert_eq!(picked.len(), 4);
}

#[test]
fn distinct_sampling_is_deterministic() {
    let pool: Vec<ProjectRecord> = (0..40).map(|i| project(i, 0, 9, 10)).collect();
    let ratio = MinRatio { metric: Metric::Commits, num: 9, den: 10 };
    let a = sample_distinct_random(&pool, positions(40), 8, 42, ratio);
    let b = sample_distinct_random(&pool, positions(40), 8, 42, ratio);
    assert_eq!(a, b);
    assert_eq!(a.len(), 8);
}

#[test]
fn distinct_sampling_never_repeats_a_project() {
    // The candidate pool lists every project twice, as if it had been
    // drawn in two batches; ids must still be unique in the sample.
    let pool: Vec<ProjectRecord> = (0..10).map(|i| project(i, 0, 10, 10)).collect();
    let mut cand = positions(10);
    cand.extend(0..10usize);
    let ratio = MinRatio { metric: Metric::Commits, num: 9, den: 10 };
    let picked = sample_distinct_random(&pool, cand, 10, 5, ratio);
    assert_eq!(picked.len(), 10);
    let mut ids: Vec<u64> = picked.iter().map(|&i| pool[i].id).collect();
    ids.sort();
    ids.dedup();
    assert_eq!(ids.len(), 10);
}

#[test]
fn distinct_sampling_respects_the_ratio_threshold() {
    // Five projects; two fail the nine-tenths commit ratio.
    let pool = vec![
        project(0, 0, 9, 10),
        project(1, 0, 8, 10),
        project(2, 0, 10, 10),
        project(3, 0, 0, 1),
        project(4, 0, 95, 100),
    ];
    let ratio = MinRatio { metric: Metric::Commits, num: 9, den: 10 };
    let picked = sample_distinct_random(&pool, positions(5), 2, 77, ratio);
    assert_eq!(picked.len(), 2);
    for &i in &picked {
        assert!(pool[i].commit_count * 10 >= pool[i].ratio_reference * 9);
    }
}

#[test]
fn distinct_sampling_underfills_only_when_the_pool_is_exhausted() {
    let pool = vec![
        project(0, 0, 9, 10),
        project(1, 0, 8, 10),
        project(2, 0, 10, 10),
        project(3, 0, 0, 1),
        project(4, 0, 95, 100),
    ];
    let ratio = MinRatio { metric: Metric::Commits, num: 9, den: 10 };
    let picked = sample_distinct_random(&pool, positions(5), 4, 77, ratio);
    // Only three candidates are eligible, so the draw signals under-fill
    // by returning exactly those three.
    assert_eq!(picked.len(), 3);
    let mut ids: Vec<u64> = picked.iter().map(|&i| pool[i].id).collect();
    ids.sort();
    assert_eq!(ids, vec![0, 2, 4]);
}

#[test]
fn top_k_sorts_descending_with_stable_ties() {
    let pool = vec![
        project(0, 5, 0, 0),
        project(1, 1, 0, 0),
        project(2, 9, 0, 0),
        project(3, 9, 0, 0),
        project(4, 3, 0, 0),
    ];
    let picked = top_k(&pool, positions(5), Metric::Stars, 3);
    // Both nine-star projects come first, in store order.
    assert_eq!(picked, vec![2, 3, 0]);
}

#[test]
fn top_k_of_a_small_population_is_the_whole_population_sorted() {
    let pool = vec![project(0, 2, 0, 0), project(1, 7, 0, 0), project(2, 4, 0, 0)];
    let picked = top_k(&pool, positions(3), Metric::Stars, 10);
    assert_eq!(picked, vec![1, 2, 0]);
}

#[test]
fn top_k_is_deterministic() {
    let pool: Vec<ProjectRecord> = (0..25).map(|i| project(i, i % 7, 0, 0)).collect();
    let a = top_k(&pool, positions(25), Metric::Stars, 10);
    let b = top_k(&pool, positions(25), Metric::Stars, 10);
    assert_eq!(a, b);
}

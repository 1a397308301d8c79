use what_constitutes_software_query::filter::{filter_indices, meets_all, Criterion};
use what_constitutes_software_query::model::{Change, Commit, Head, Language, Metric,
    ProjectRecord, Tree};
use what_constitutes_software_query::pipeline::{sample_all_py, sample_developed_py,
    sample_stars_py};

fn extractable_project(id: u64, language: Language, stars: u64, age_days: u64, commits: u64)
    -> ProjectRecord {
    ProjectRecord {
        id,
        language,
        stars,
        age_days,
        developers: 5,
        locs: 1000,
        snapshot_count: 50,
        commit_count: commits,
        max_h_index: 5,
        ratio_reference: commits,
        default_branch: Some("main".to_string()),
        heads: Some(vec![Head {
            name: "refs/heads/main".to_string(),
            commit_id: id,
            commit: Some(Commit {
                id,
                tree: Tree {
                    changes: vec![Change {
                        path_id: id,
                        path: Some(format!("file_{}.rs", id)),
                        snapshot_id: Some(id * 100),
                    }],
                },
            }),
        }]),
    }
}

#[test]
fn age_threshold_excludes_young_projects_regardless_of_commits() {
    // Three Python projects aged 10, 300 and 500 days; thresholds of at
    // least 240 days and at least 23 commits. The ten-day-old project is
    // excluded even though its commit count is enormous.
    let pop = vec![
        extractable_project(0, Language::Python, 1, 10, 100000),
        extractable_project(1, Language::Python, 2, 300, 23),
        extractable_project(2, Language::Python, 3, 500, 40),
    ];
    let criteria = vec![
        Criterion::LanguageIs(Language::Python),
        Criterion::AtLeast(Metric::AgeDays, 240),
        Criterion::AtLeast(Metric::Commits, 23),
    ];
    assert!(!meets_all(&pop[0], &criteria));
    let eligible = filter_indices(&pop, &criteria);
    assert_eq!(eligible, vec![1, 2]);
}

#[test]
fn language_filter_excludes_other_languages() {
    let pop = vec![
        extractable_project(0, Language::Java, 1, 100, 10),
        extractable_project(1, Language::Python, 2, 100, 10),
    ];
    let criteria = vec![Criterion::LanguageIs(Language::Python)];
    assert_eq!(filter_indices(&pop, &criteria), vec![1]);
}

#[test]
fn stars_query_takes_the_top_by_stars() {
    let pop = vec![
        extractable_project(0, Language::Python, 10, 300, 30),
        extractable_project(1, Language::Python, 50, 300, 30),
        extractable_project(2, Language::Java, 99, 300, 30),
        extractable_project(3, Language::Python, 20, 300, 30),
    ];
    let r = sample_stars_py(&pop);
    let pids: Vec<u64> = r.rows.iter().map(|row| row.pid).collect();
    // Python projects only, in descending star order; the Java project
    // never enters the pipeline.
    assert_eq!(pids, vec![1, 3, 0]);
    assert_eq!(r.filename, "sample_stars.csv");
    assert_eq!(r.csv.lines().next(), Some("pid,path,hash_id"));
    assert_eq!(r.csv.lines().count(), 1 + r.rows.len());
}

#[test]
fn stars_query_is_deterministic() {
    let pop: Vec<ProjectRecord> = (0..30)
        .map(|i| extractable_project(i, Language::Python, i * 13 % 11, 300, 30))
        .collect();
    let a = sample_stars_py(&pop);
    let b = sample_stars_py(&pop);
    assert_eq!(a.csv, b.csv);
    assert_eq!(a.rows, b.rows);
}

#[test]
fn random_query_reports_underfill_on_a_small_population() {
    let pop = vec![
        extractable_project(0, Language::Python, 1, 300, 30),
        extractable_project(1, Language::Python, 2, 300, 30),
        extractable_project(2, Language::Python, 3, 300, 30),
    ];
    let r = sample_all_py(&pop);
    // Three extractable candidates against a nominal size of 1020.
    assert_eq!(r.extractable_in_first_pass, 3);
    assert!(r.underfilled);
    assert_eq!(r.rows.len(), 3);
    assert_eq!(r.filename, "sample_all.csv");
}

#[test]
fn random_query_is_deterministic() {
    let pop: Vec<ProjectRecord> = (0..40)
        .map(|i| extractable_project(i, Language::Python, i, 300, 30))
        .collect();
    let a = sample_all_py(&pop);
    let b = sample_all_py(&pop);
    assert_eq!(a.csv, b.csv);
}

#[test]
fn developed_query_applies_the_maturity_thresholds() {
    // The first project misses the 240-day age threshold, the second
    // misses the commit threshold of 23, the third passes everything.
    let pop = vec![
        extractable_project(0, Language::Python, 1, 100, 100),
        extractable_project(1, Language::Python, 2, 400, 10),
        extractable_project(2, Language::Python, 3, 400, 100),
    ];
    let r = sample_developed_py(&pop);
    let pids: Vec<u64> = r.rows.iter().map(|row| row.pid).collect();
    assert_eq!(pids, vec![2]);
    assert_eq!(r.filename, "sample_developed.csv");
    assert!(r.underfilled);
}

#[test]
fn unextractable_projects_are_skipped_not_fatal() {
    let mut broken = extractable_project(5, Language::Python, 100, 300, 30);
    broken.default_branch = None;
    let pop = vec![extractable_project(0, Language::Python, 1, 300, 30), broken];
    let r = sample_all_py(&pop);
    // Only the healthy project contributes rows; the run still succeeds.
    assert_eq!(r.rows.len(), 1);
    assert_eq!(r.rows[0].pid, 0);
    assert_eq!(r.extractable_in_first_pass, 1);
}

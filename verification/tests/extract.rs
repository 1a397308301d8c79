use what_constitutes_software_query::extract::{
    can_map_to_output_format, extract_default_snapshot, map_to_output_format, ExtractError,
    ExtractWarning,
};
use what_constitutes_software_query::model::{Change, Commit, Head, Language, ProjectRecord, Tree};

fn change(path_id: u64, path: Option<&str>, snapshot_id: Option<u64>) -> Change {
    Change { path_id, path: path.map(|p| p.to_string()), snapshot_id }
}

fn head(name: &str, commit_id: u64, changes: Option<Vec<Change>>) -> Head {
    Head {
        name: name.to_string(),
        commit_id,
        commit: changes.map(|cs| Commit { id: commit_id, tree: Tree { changes: cs } }),
    }
}

fn project(id: u64, default_branch: Option<&str>, heads: Option<Vec<Head>>) -> ProjectRecord {
    ProjectRecord {
        id,
        language: Language::Python,
        stars: 0,
        age_days: 0,
        developers: 0,
        locs: 0,
        snapshot_count: 0,
        commit_count: 0,
        max_h_index: 0,
        ratio_reference: 0,
        default_branch: default_branch.map(|b| b.to_string()),
        heads,
    }
}

#[test]
fn extracts_the_default_head_tree() {
    let p = project(
        7,
        Some("main"),
        Some(vec![head(
            "refs/heads/main",
            1,
            Some(vec![change(1, Some("src/a.rs"), Some(11)), change(2, Some("b.txt"), Some(22))]),
        )]),
    );
    let e = extract_default_snapshot(&p).unwrap();
    assert_eq!(e.rows.len(), 2);
    assert_eq!(e.rows[0].pid, 7);
    assert_eq!(e.rows[0].path, "src/a.rs");
    assert_eq!(e.rows[0].hash_id, 11);
    assert_eq!(e.rows[1].path, "b.txt");
    assert_eq!(e.rows[1].hash_id, 22);
    assert!(e.warnings.is_empty());
    assert!(can_map_to_output_format(&p));
}

#[test]
fn extraction_is_idempotent() {
    let p = project(
        9,
        Some("main"),
        Some(vec![head(
            "refs/heads/main",
            1,
            Some(vec![
                change(1, Some("x"), Some(5)),
                change(2, None, Some(6)),
                change(3, Some("y"), None),
            ]),
        )]),
    );
    let a = extract_default_snapshot(&p).unwrap();
    let b = extract_default_snapshot(&p).unwrap();
    assert_eq!(a.rows, b.rows);
    assert_eq!(a.warnings, b.warnings);
    let c = map_to_output_format(p).unwrap();
    assert_eq!(a.rows, c);
}

#[test]
fn no_default_branch_fails() {
    let p = project(1, None, Some(vec![head("refs/heads/main", 1, Some(vec![]))]));
    assert_eq!(extract_default_snapshot(&p).unwrap_err(), ExtractError::NoDefaultBranch);
    assert!(!can_map_to_output_format(&p));
}

#[test]
fn missing_or_empty_heads_fail() {
    let p = project(2, Some("main"), None);
    assert_eq!(extract_default_snapshot(&p).unwrap_err(), ExtractError::NoHeads);
    let q = project(2, Some("main"), Some(vec![]));
    assert_eq!(extract_default_snapshot(&q).unwrap_err(), ExtractError::NoHeads);
}

#[test]
fn no_matching_head_fails() {
    let p = project(3, Some("main"), Some(vec![head("refs/heads/dev", 1, Some(vec![]))]));
    assert_eq!(extract_default_snapshot(&p).unwrap_err(), ExtractError::NoDefaultHead);
}

#[test]
fn unresolved_commit_fails() {
    let p = project(4, Some("main"), Some(vec![head("refs/heads/main", 1, None)]));
    assert_eq!(extract_default_snapshot(&p).unwrap_err(), ExtractError::NoCommitAtHead);
}

#[test]
fn empty_change_list_yields_empty_output() {
    let p = project(5, Some("main"), Some(vec![head("refs/heads/main", 1, Some(vec![]))]));
    let e = extract_default_snapshot(&p).unwrap();
    assert!(e.rows.is_empty());
    assert!(e.warnings.is_empty());
    assert!(can_map_to_output_format(&p));
}

#[test]
fn deleted_file_is_dropped_silently() {
    // A present path with an absent snapshot id is a deleted file: the
    // change is dropped without any warning.
    let p = project(
        6,
        Some("main"),
        Some(vec![head(
            "refs/heads/main",
            1,
            Some(vec![change(1, Some("gone.rs"), None), change(2, Some("kept.rs"), Some(8))]),
        )]),
    );
    let e = extract_default_snapshot(&p).unwrap();
    assert_eq!(e.rows.len(), 1);
    assert_eq!(e.rows[0].path, "kept.rs");
    assert!(e.warnings.is_empty());
}

#[test]
fn absent_path_is_dropped_with_a_warning() {
    let p = project(
        6,
        Some("main"),
        Some(vec![head(
            "refs/heads/main",
            1,
            Some(vec![
                change(41, None, Some(9)),
                change(42, None, None),
                change(43, Some("kept.rs"), Some(8)),
            ]),
        )]),
    );
    let e = extract_default_snapshot(&p).unwrap();
    assert_eq!(e.rows.len(), 1);
    assert_eq!(
        e.warnings,
        vec![
            ExtractWarning::MissingPath { path_id: 41 },
            ExtractWarning::MissingPath { path_id: 42 },
        ]
    );
}

#[test]
fn duplicate_default_heads_use_the_first_with_one_warning() {
    // Two heads both named refs/heads/main: extraction proceeds with the
    // first one, in store order, and emits exactly one ambiguity warning.
    let p = project(
        8,
        Some("main"),
        Some(vec![
            head("refs/heads/main", 1, Some(vec![change(1, Some("first.rs"), Some(1))])),
            head("refs/heads/main", 2, Some(vec![change(2, Some("second.rs"), Some(2))])),
        ]),
    );
    let e = extract_default_snapshot(&p).unwrap();
    assert_eq!(e.rows.len(), 1);
    assert_eq!(e.rows[0].path, "first.rs");
    assert_eq!(e.warnings, vec![ExtractWarning::AmbiguousDefaultHead { count: 2 }]);
}

#[test]
fn branch_name_must_match_as_a_ref_path() {
    // A head whose name is the bare branch name does not match.
    let p = project(10, Some("main"), Some(vec![head("main", 1, Some(vec![]))]));
    assert_eq!(extract_default_snapshot(&p).unwrap_err(), ExtractError::NoDefaultHead);
}

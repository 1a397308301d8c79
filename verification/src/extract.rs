//! Default-snapshot extractor: resolves one project's default branch to
//! its head commit and maps the commit tree's changes to output rows,
//! with a step-tagged failure for every irrecoverable gap and a warning
//! for every ambiguous or inconsistent link. The predicate form used by
//! the sampler's pre-filter pass is the identical computation, evaluated
//! only for its success flag.
use vstd::prelude::*;
use vstd::string::StringExecFns;

use crate::model::{Change, Head, PathId, ProjectId, ProjectRecord, SnapshotId};

verus! {

/// One row of the output: project id, file path, content identifier.
#[derive(Clone, PartialEq, Eq, Debug)]
pub struct OutputRow {
    pub pid: ProjectId,
    pub path: String,
    pub hash_id: SnapshotId,
}

/// The step of the resolution chain that failed, making the project
/// unextractable. Such a failure skips the project; it never aborts a run.
#[derive(Clone, Copy, PartialEq, Eq, Structural, Debug)]
pub enum ExtractError {
    /// The project names no default branch.
    NoDefaultBranch,
    /// The project has no branch heads at all.
    NoHeads,
    /// No head's name equals the default branch's ref path.
    NoDefaultHead,
    /// The chosen head's commit does not resolve.
    NoCommitAtHead,
}

/// A non-fatal anomaly met while extracting; extraction proceeds.
#[derive(Clone, Copy, PartialEq, Eq, Structural, Debug)]
pub enum ExtractWarning {
    /// More than one head matched the default branch's ref path; the
    /// first match, in store order, was used.
    AmbiguousDefaultHead { count: usize },
    /// A change entry had no path: a store-internal inconsistency. The
    /// entry was dropped.
    MissingPath { path_id: PathId },
}

/// A successful extraction: the surviving rows, in tree order, and every
/// warning emitted along the way.
#[derive(Debug)]
pub struct Extraction {
    pub rows: Vec<OutputRow>,
    pub warnings: Vec<ExtractWarning>,
}

/// The ref path a branch name resolves through: `refs/heads/<branch>`.
pub open spec fn spec_ref_path(branch: Seq<char>) -> Seq<char> {
    "refs/heads/"@ + branch
}

pub open spec fn spec_head_matches(h: Head, branch: Seq<char>) -> bool {
    h.name@ == spec_ref_path(branch)
}

/// The heads whose name equals the default branch's ref path, in store
/// order.
pub open spec fn spec_default_heads(heads: Seq<Head>, branch: Seq<char>) -> Seq<Head> {
    heads.filter(|h: Head| spec_head_matches(h, branch))
}

/// The rows that a tree's change list yields: one row per change whose
/// path and snapshot id are both present. A present path with an absent
/// snapshot id is a deleted file — dropped silently as a normal case. An
/// absent path drops the change as well (with a warning, see
/// `spec_change_warnings`).
pub open spec fn spec_rows(pid: ProjectId, changes: Seq<Change>) -> Seq<OutputRow>
    decreases changes.len(),
{
    if changes.len() == 0 {
        Seq::empty()
    } else {
        let c = changes[0];
        let rest = spec_rows(pid, changes.drop_first());
        if c.path is Some && c.snapshot_id is Some {
            seq![OutputRow { pid, path: c.path->0, hash_id: c.snapshot_id->0 }] + rest
        } else {
            rest
        }
    }
}

/// The warnings that a tree's change list yields: exactly one per change
/// whose path is absent, and none for any other change — in particular
/// none for a deleted file (present path, absent snapshot id).
pub open spec fn spec_change_warnings(changes: Seq<Change>) -> Seq<ExtractWarning>
    decreases changes.len(),
{
    if changes.len() == 0 {
        Seq::empty()
    } else {
        let c = changes[0];
        let rest = spec_change_warnings(changes.drop_first());
        if c.path is None {
            seq![ExtractWarning::MissingPath { path_id: c.path_id }] + rest
        } else {
            rest
        }
    }
}

/// The whole resolution chain, as one function of the project alone:
/// either the rows and warnings of a successful extraction, or the step
/// that failed. Both the full extractor and its predicate form are held
/// to this one definition.
pub open spec fn spec_extract(p: ProjectRecord) -> Result<
    (Seq<OutputRow>, Seq<ExtractWarning>),
    ExtractError,
> {
    if p.default_branch is None {
        Err(ExtractError::NoDefaultBranch)
    } else if p.heads is None || p.heads->0@.len() == 0 {
        Err(ExtractError::NoHeads)
    } else {
        let branch = p.default_branch->0@;
        let heads = p.heads->0@;
        let dh = spec_default_heads(heads, branch);
        if dh.len() == 0 {
            Err(ExtractError::NoDefaultHead)
        } else if dh[0].commit is None {
            Err(ExtractError::NoCommitAtHead)
        } else {
            let changes = dh[0].commit->0.tree.changes@;
            let ambiguous: Seq<ExtractWarning> = if dh.len() > 1 {
                seq![ExtractWarning::AmbiguousDefaultHead { count: dh.len() as usize }]
            } else {
                Seq::empty()
            };
            Ok((spec_rows(p.id, changes), ambiguous + spec_change_warnings(changes)))
        }
    }
}

fn ref_path(branch: &String) -> (r: String)
    ensures
        r@ == spec_ref_path(branch@),
{
    let mut s = String::from_str("refs/heads/");
    s.append(branch.as_str());
    s
}

/// Deletion handling: a change with a present path and an absent snapshot
/// id (a deleted file) contributes no row and no warning; a change with
/// an absent path contributes no row and exactly one missing-path
/// warning.
pub proof fn lemma_deletion_handling(pid: ProjectId, changes: Seq<Change>)
    requires
        changes.len() > 0,
    ensures
        changes[0].path is Some && changes[0].snapshot_id is None ==> spec_rows(pid, changes)
            == spec_rows(pid, changes.drop_first()) && spec_change_warnings(changes)
            == spec_change_warnings(changes.drop_first()),
        changes[0].path is None ==> spec_rows(pid, changes) == spec_rows(
            pid,
            changes.drop_first(),
        ) && spec_change_warnings(changes) == seq![
            ExtractWarning::MissingPath { path_id: changes[0].path_id },
        ] + spec_change_warnings(changes.drop_first()),
{
}

/// Resolve the project's default branch to its head commit and map the
/// commit tree's changes to rows. The result — success or the failing
/// step, rows and warnings alike — is a pure function of the project, so
/// running the extractor twice yields identical output.
pub fn extract_default_snapshot(p: &ProjectRecord) -> (r: Result<Extraction, ExtractError>)
    ensures
        match spec_extract(*p) {
            Ok(pair) => r matches Ok(e) && e.rows@ == pair.0 && e.warnings@ == pair.1,
            Err(err) => r matches Err(e) && e == err,
        },
{
    let branch = match &p.default_branch {
        None => { return Err(ExtractError::NoDefaultBranch) },
        Some(b) => b,
    };
    let heads = match &p.heads {
        None => { return Err(ExtractError::NoHeads) },
        Some(h) => h,
    };
    if heads.len() == 0 {
        return Err(ExtractError::NoHeads);
    }
    let expected = ref_path(branch);
    let ghost pred = |h: Head| spec_head_matches(h, branch@);
    let mut match_count: usize = 0;
    let mut first_match: usize = 0;
    let mut i: usize = 0;
    while i < heads.len()
        invariant
            i <= heads@.len(),
            expected@ == spec_ref_path(branch@),
            pred == (|h: Head| spec_head_matches(h, branch@)),
            match_count == heads@.take(i as int).filter(pred).len(),
            match_count > 0 ==> first_match < i && heads@.take(i as int).filter(pred)[0]
                == heads@[first_match as int] && pred(heads@[first_match as int]),
        decreases heads@.len() - i,
    {
        let ghost prefix = heads@.take(i as int);
        let hit = heads[i].name == expected;
        proof {
            assert(heads@.take(i + 1).drop_last() =~= prefix);
            assert(heads@.take(i + 1).last() == heads@[i as int]);
            reveal(Seq::filter);
            assert(heads@.take(i + 1).filter(pred) == if pred(heads@[i as int]) {
                prefix.filter(pred).push(heads@[i as int])
            } else {
                prefix.filter(pred)
            });
        }
        if hit {
            if match_count == 0 {
                first_match = i;
            }
            match_count += 1;
            proof {
                if heads@.take(i as int).filter(pred).len() == 0 {
                    assert(heads@.take(i + 1).filter(pred)[0] == heads@[i as int]);
                }
            }
        }
        i += 1;
    }
    proof {
        assert(heads@.take(heads@.len() as int) =~= heads@);
    }
    if match_count == 0 {
        return Err(ExtractError::NoDefaultHead);
    }
    let head = &heads[first_match];
    proof {
        assert(head == spec_default_heads(p.heads->0@, p.default_branch->0@)[0]);
    }
    let commit = match &head.commit {
        None => { return Err(ExtractError::NoCommitAtHead) },
        Some(c) => c,
    };
    let changes = &commit.tree.changes;
    let mut warnings: Vec<ExtractWarning> = Vec::new();
    if match_count > 1 {
        warnings.push(ExtractWarning::AmbiguousDefaultHead { count: match_count });
    }
    let ghost ambiguous = warnings@;
    let mut rows: Vec<OutputRow> = Vec::new();
    let mut j: usize = 0;
    proof {
        assert(changes@.skip(0) =~= changes@);
        assert(Seq::<OutputRow>::empty() + spec_rows(p.id, changes@) == spec_rows(p.id, changes@));
        assert(warnings@.skip(ambiguous.len() as int) =~= Seq::<ExtractWarning>::empty());
        assert(Seq::<ExtractWarning>::empty() + spec_change_warnings(changes@)
            == spec_change_warnings(changes@));
        assert(warnings@.take(ambiguous.len() as int) =~= ambiguous);
    }
    while j < changes.len()
        invariant
            j <= changes@.len(),
            spec_rows(p.id, changes@) == rows@ + spec_rows(p.id, changes@.skip(j as int)),
            spec_change_warnings(changes@) == warnings@.skip(ambiguous.len() as int)
                + spec_change_warnings(changes@.skip(j as int)),
            warnings@.take(ambiguous.len() as int) == ambiguous,
            ambiguous.len() <= warnings@.len(),
        decreases changes@.len() - j,
    {
        let ghost before = changes@.skip(j as int);
        proof {
            assert(before.drop_first() =~= changes@.skip(j + 1));
            assert(before[0] == changes@[j as int]);
        }
        let c = &changes[j];
        match (&c.path, &c.snapshot_id) {
            (None, _) => {
                let ghost prev = warnings@;
                warnings.push(ExtractWarning::MissingPath { path_id: c.path_id });
                proof {
                    assert(warnings@.skip(ambiguous.len() as int) =~= prev.skip(
                        ambiguous.len() as int,
                    ).push(ExtractWarning::MissingPath { path_id: changes@[j as int].path_id }));
                    assert(warnings@.take(ambiguous.len() as int) =~= prev.take(
                        ambiguous.len() as int,
                    ));
                    assert(prev.skip(ambiguous.len() as int).push(
                        ExtractWarning::MissingPath { path_id: changes@[j as int].path_id },
                    ) =~= prev.skip(ambiguous.len() as int) + seq![
                        ExtractWarning::MissingPath { path_id: changes@[j as int].path_id },
                    ]);
                }
            },
            (Some(_), None) => {
                // A deleted file: the expected representation, dropped
                // silently as a normal case.
            },
            (Some(path), Some(sid)) => {
                let ghost prev = rows@;
                rows.push(OutputRow { pid: p.id, path: path.clone(), hash_id: *sid });
                proof {
                    assert(prev.push(
                        OutputRow {
                            pid: p.id,
                            path: changes@[j as int].path->0,
                            hash_id: changes@[j as int].snapshot_id->0,
                        },
                    ) =~= prev + seq![
                        OutputRow {
                            pid: p.id,
                            path: changes@[j as int].path->0,
                            hash_id: changes@[j as int].snapshot_id->0,
                        },
                    ]);
                }
            },
        }
        j += 1;
    }
    proof {
        assert(changes@.skip(changes@.len() as int) =~= Seq::<Change>::empty());
        assert(rows@ + Seq::<OutputRow>::empty() == rows@);
        assert(warnings@ =~= warnings@.take(ambiguous.len() as int) + warnings@.skip(
            ambiguous.len() as int,
        ));
    }
    Ok(Extraction { rows, warnings })
}

/// The mapping step of the pipeline: the rows of a successful
/// extraction, with warnings discarded, or nothing.
pub fn _map_to_output_format(p: &ProjectRecord) -> (r: Option<Vec<OutputRow>>)
    ensures
        match spec_extract(*p) {
            Ok(pair) => r matches Some(rows) && rows@ == pair.0,
            Err(_) => r is None,
        },
{
    match extract_default_snapshot(p) {
        Ok(e) => Some(e.rows),
        Err(_) => None,
    }
}

/// By-value form of the mapping step.
pub fn map_to_output_format(p: ProjectRecord) -> (r: Option<Vec<OutputRow>>)
    ensures
        match spec_extract(p) {
            Ok(pair) => r matches Some(rows) && rows@ == pair.0,
            Err(_) => r is None,
        },
{
    _map_to_output_format(&p)
}

/// The extractor's predicate form: the identical resolution chain,
/// evaluated only for its success flag, so the sampler's pre-filter pass
/// can never diverge from the full extraction.
pub fn can_map_to_output_format(p: &ProjectRecord) -> (b: bool)
    ensures
        b == (spec_extract(*p) is Ok),
{
    _map_to_output_format(p).is_some()
}

} // verus!

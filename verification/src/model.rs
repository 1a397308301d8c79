//! The data model: read-only views of store-supplied projects and of the
//! version history hanging off each project's branch heads.
use vstd::prelude::*;

verus! {

pub type ProjectId = u64;

pub type SnapshotId = u64;

pub type PathId = u64;

#[derive(Clone, Copy, PartialEq, Eq, Structural, Debug)]
pub enum Language {
    Java,
    Python,
    JavaScript,
}

/// The numeric project attributes that sampling and filtering read.
#[derive(Clone, Copy, PartialEq, Eq, Structural, Debug)]
pub enum Metric {
    Stars,
    AgeDays,
    Developers,
    Locs,
    Snapshots,
    Commits,
    MaxHIndex,
}

/// One tracked file of a commit's tree: its current path and the content
/// identifier of its bytes. A present path with an absent snapshot id is
/// the store's representation of a file deleted by this point; an absent
/// path is a store-internal inconsistency.
pub struct Change {
    pub path_id: PathId,
    pub path: Option<String>,
    pub snapshot_id: Option<SnapshotId>,
}

/// The file-system state at one commit: the full file listing, as the
/// store exposes it.
pub struct Tree {
    pub changes: Vec<Change>,
}

pub struct Commit {
    pub id: u64,
    pub tree: Tree,
}

/// A named pointer (`refs/heads/<branch>`) into a project's commit graph.
/// The commit it points at may fail to resolve in the store.
pub struct Head {
    pub name: String,
    pub commit_id: u64,
    pub commit: Option<Commit>,
}

/// A store-supplied project together with every attribute this pipeline
/// consumes. Immutable for the duration of a run.
pub struct ProjectRecord {
    pub id: ProjectId,
    pub language: Language,
    pub stars: u64,
    pub age_days: u64,
    pub developers: u64,
    pub locs: u64,
    pub snapshot_count: u64,
    pub commit_count: u64,
    pub max_h_index: u64,
    /// Store-supplied reference quantity that ratio thresholds compare a
    /// metric against (for the commit ratio: the commit count the project
    /// would have were it complete).
    pub ratio_reference: u64,
    pub default_branch: Option<String>,
    pub heads: Option<Vec<Head>>,
}

/// A minimum-ratio validity threshold: a candidate passes iff the chosen
/// metric is at least `num/den` of the project's store-supplied reference
/// quantity. The fraction is kept as a numerator and denominator so that
/// the comparison is exact integer arithmetic.
#[derive(Clone, Copy, PartialEq, Eq, Structural, Debug)]
pub struct MinRatio {
    pub metric: Metric,
    pub num: u64,
    pub den: u64,
}

pub open spec fn spec_metric_value(p: ProjectRecord, m: Metric) -> u64 {
    match m {
        Metric::Stars => p.stars,
        Metric::AgeDays => p.age_days,
        Metric::Developers => p.developers,
        Metric::Locs => p.locs,
        Metric::Snapshots => p.snapshot_count,
        Metric::Commits => p.commit_count,
        Metric::MaxHIndex => p.max_h_index,
    }
}

pub fn metric_value(p: &ProjectRecord, m: Metric) -> (v: u64)
    ensures
        v == spec_metric_value(*p, m),
{
    match m {
        Metric::Stars => p.stars,
        Metric::AgeDays => p.age_days,
        Metric::Developers => p.developers,
        Metric::Locs => p.locs,
        Metric::Snapshots => p.snapshot_count,
        Metric::Commits => p.commit_count,
        Metric::MaxHIndex => p.max_h_index,
    }
}

pub open spec fn spec_ratio_ok(p: ProjectRecord, r: MinRatio) -> bool {
    spec_metric_value(p, r.metric) * r.den >= p.ratio_reference * r.num
}

pub fn ratio_ok(p: &ProjectRecord, r: MinRatio) -> (b: bool)
    ensures
        b == spec_ratio_ok(*p, r),
{
    proof {
        assert((spec_metric_value(*p, r.metric) as u128) * (r.den as u128)
            <= 0xFFFF_FFFF_FFFF_FFFFu128 * 0xFFFF_FFFF_FFFF_FFFFu128) by (nonlinear_arith)
            requires
                spec_metric_value(*p, r.metric) <= 0xFFFF_FFFF_FFFF_FFFFu128,
                r.den <= 0xFFFF_FFFF_FFFF_FFFFu128,
        ;
        assert((p.ratio_reference as u128) * (r.num as u128) <= 0xFFFF_FFFF_FFFF_FFFFu128
            * 0xFFFF_FFFF_FFFF_FFFFu128) by (nonlinear_arith)
            requires
                p.ratio_reference <= 0xFFFF_FFFF_FFFF_FFFFu128,
                r.num <= 0xFFFF_FFFF_FFFF_FFFFu128,
        ;
    }
    (metric_value(p, r.metric) as u128) * (r.den as u128) >= (p.ratio_reference as u128) * (
    r.num as u128)
}

} // verus!

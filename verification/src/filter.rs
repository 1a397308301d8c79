//! Criteria filter: narrows a project population to those matching a
//! conjunction of predicates (language tag, "at least" thresholds on
//! numeric attributes), preserving the store's order.
use vstd::prelude::*;

use crate::model::{Language, Metric, ProjectRecord, spec_metric_value, metric_value};

verus! {

/// One predicate of a conjunction of selection criteria.
#[derive(Clone, Copy, PartialEq, Eq, Structural, Debug)]
pub enum Criterion {
    /// Exact match on the project's language tag.
    LanguageIs(Language),
    /// The metric's value is at least the given threshold.
    AtLeast(Metric, u64),
}

pub open spec fn spec_meets(p: ProjectRecord, c: Criterion) -> bool {
    match c {
        Criterion::LanguageIs(l) => p.language == l,
        Criterion::AtLeast(m, t) => spec_metric_value(p, m) >= t,
    }
}

/// A project proceeds only if every criterion of the conjunction holds.
pub open spec fn spec_meets_all(p: ProjectRecord, cs: Seq<Criterion>) -> bool {
    forall|i: int| 0 <= i < cs.len() ==> spec_meets(p, #[trigger] cs[i])
}

pub fn meets(p: &ProjectRecord, c: Criterion) -> (b: bool)
    ensures
        b == spec_meets(*p, c),
{
    match c {
        Criterion::LanguageIs(l) => p.language == l,
        Criterion::AtLeast(m, t) => metric_value(p, m) >= t,
    }
}

pub fn meets_all(p: &ProjectRecord, cs: &Vec<Criterion>) -> (b: bool)
    ensures
        b == spec_meets_all(*p, cs@),
{
    let mut i: usize = 0;
    while i < cs.len()
        invariant
            i <= cs@.len(),
            forall|j: int| 0 <= j < i ==> spec_meets(*p, #[trigger] cs@[j]),
        decreases cs@.len() - i,
    {
        if !meets(p, cs[i]) {
            return false;
        }
        i += 1;
    }
    true
}

/// The positions of the projects among the first `n` that meet every
/// criterion, in store order.
pub open spec fn spec_eligible_up_to(
    pop: Seq<ProjectRecord>,
    cs: Seq<Criterion>,
    n: int,
) -> Seq<usize>
    decreases n,
{
    if n <= 0 {
        Seq::empty()
    } else {
        let prefix = spec_eligible_up_to(pop, cs, n - 1);
        if spec_meets_all(pop[n - 1], cs) {
            prefix.push((n - 1) as usize)
        } else {
            prefix
        }
    }
}

/// The positions, in store order, of the projects that meet every
/// criterion.
pub open spec fn spec_eligible(pop: Seq<ProjectRecord>, cs: Seq<Criterion>) -> Seq<usize> {
    spec_eligible_up_to(pop, cs, pop.len() as int)
}

/// The positions, in store order, of the projects that meet every
/// criterion. The result lists each matching position exactly once, in
/// strictly increasing order.
pub fn filter_indices(pop: &Vec<ProjectRecord>, cs: &Vec<Criterion>) -> (r: Vec<usize>)
    ensures
        r@ == spec_eligible(pop@, cs@),
        forall|k: int|
            0 <= k < r@.len() ==> r@[k] < pop@.len() && spec_meets_all(
                pop@[r@[k] as int],
                cs@,
            ),
        forall|k1: int, k2: int| 0 <= k1 < k2 < r@.len() ==> r@[k1] < r@[k2],
        forall|i: int|
            0 <= i < pop@.len() && spec_meets_all(pop@[i], cs@) ==> r@.contains(i as usize),
{
    let mut r: Vec<usize> = Vec::new();
    let mut i: usize = 0;
    while i < pop.len()
        invariant
            i <= pop@.len(),
            r@ == spec_eligible_up_to(pop@, cs@, i as int),
            forall|k: int|
                0 <= k < r@.len() ==> r@[k] < i && spec_meets_all(pop@[r@[k] as int], cs@),
            forall|k1: int, k2: int| 0 <= k1 < k2 < r@.len() ==> r@[k1] < r@[k2],
            forall|j: int|
                0 <= j < i && spec_meets_all(pop@[j], cs@) ==> r@.contains(j as usize),
        decreases pop@.len() - i,
    {
        if meets_all(&pop[i], cs) {
            let ghost old_r = r@;
            r.push(i);
            proof {
                assert forall|j: int|
                    0 <= j <= i && spec_meets_all(pop@[j], cs@) implies r@.contains(
                    j as usize,
                ) by {
                    if j == i {
                        assert(r@[old_r.len() as int] == i as usize);
                    } else {
                        let k = choose|k: int| 0 <= k < old_r.len() && old_r[k] == j as usize;
                        assert(r@[k] == j as usize);
                    }
                }
            }
        }
        i += 1;
    }
    r
}

} // verus!

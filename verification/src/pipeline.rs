//! Pipeline orchestration: criteria filter, a diagnostic oversized first
//! sampling pass checked for extractability, the final draw with the
//! same seed against the filtered population, extraction of every
//! sampled project, and CSV rendering. One public query function stands
//! for each language/strategy combination of the system.
use vstd::prelude::*;
use vstd::string::StringExecFns;

use crate::filter::{Criterion, filter_indices, spec_eligible};
use crate::model::{Language, Metric, MinRatio, ProjectId, ProjectRecord};
use crate::sample::{top_k, sample_random, sample_distinct_random, spec_top_k, spec_draw,
    spec_draw_distinct, spec_init_state};
use crate::extract::{extract_default_snapshot, spec_extract, OutputRow, ExtractError,
    ExtractWarning};
use crate::export::{render_csv, spec_csv};
use crate::{SELECTION_SIZE, OVERSAMPLE, SEED_ALL, SEED_100LOC_7D_10C};

verus! {

/// How many top-starred projects the stars queries pre-select before the
/// extractability check.
pub const STARS_POOL_SIZE: usize = 1500;

/// A per-project warning of one query run; none of these aborts a run.
#[derive(Clone, Copy, PartialEq, Eq, Structural, Debug)]
pub enum RunWarning {
    /// The project failed a resolution step and was dropped.
    ProjectSkipped { pid: ProjectId, reason: ExtractError },
    /// The project was extracted, with a non-fatal anomaly.
    ProjectAnomaly { pid: ProjectId, warning: ExtractWarning },
}

/// What one query run produced: the rows, their CSV rendering, the
/// structured warnings, and the diagnostic outcome of the oversized
/// first sampling pass.
pub struct QueryResult {
    pub csv: String,
    pub rows: Vec<OutputRow>,
    pub warnings: Vec<RunWarning>,
    /// How many candidates of the first pass were extractable.
    pub extractable_in_first_pass: usize,
    /// Whether the first pass showed that the final sample will
    /// under-deliver: a reportable condition, not an error.
    pub underfilled: bool,
    /// The file name the caller is expected to write the CSV under.
    pub filename: String,
}

/// The picked positions that are extractable, in their picked order.
pub open spec fn spec_extractable_subset(pop: Seq<ProjectRecord>, picked: Seq<usize>) -> Seq<
    usize,
> {
    picked.filter(|ci: usize| spec_extract(pop[ci as int]) is Ok)
}

/// The rows of the picked projects, flattened in picked order; a project
/// that fails extraction contributes none.
pub open spec fn spec_rows_of(pop: Seq<ProjectRecord>, picked: Seq<usize>) -> Seq<OutputRow>
    decreases picked.len(),
{
    if picked.len() == 0 {
        Seq::empty()
    } else {
        let first = match spec_extract(pop[picked[0] as int]) {
            Ok(pair) => pair.0,
            Err(_) => Seq::empty(),
        };
        first + spec_rows_of(pop, picked.drop_first())
    }
}

/// The warnings one picked project contributes: its extraction anomalies,
/// or the single skip warning naming the failed step.
pub open spec fn spec_project_warnings(p: ProjectRecord) -> Seq<RunWarning> {
    match spec_extract(p) {
        Ok(pair) => pair.1.map_values(
            |w: ExtractWarning| RunWarning::ProjectAnomaly { pid: p.id, warning: w },
        ),
        Err(e) => seq![RunWarning::ProjectSkipped { pid: p.id, reason: e }],
    }
}

/// The warnings of the picked projects, flattened in picked order.
pub open spec fn spec_warnings_of(pop: Seq<ProjectRecord>, picked: Seq<usize>) -> Seq<RunWarning>
    decreases picked.len(),
{
    if picked.len() == 0 {
        Seq::empty()
    } else {
        spec_project_warnings(pop[picked[0] as int]) + spec_warnings_of(pop, picked.drop_first())
    }
}

fn copy_indices(v: &Vec<usize>) -> (r: Vec<usize>)
    ensures
        r@ == v@,
{
    let mut r: Vec<usize> = Vec::new();
    let mut i: usize = 0;
    while i < v.len()
        invariant
            i <= v@.len(),
            r@ == v@.take(i as int),
        decreases v@.len() - i,
    {
        r.push(v[i]);
        proof {
            assert(r@ =~= v@.take(i + 1));
        }
        i += 1;
    }
    proof {
        assert(v@.take(v@.len() as int) =~= v@);
    }
    r
}

/// Keeps, of the picked positions, those whose project is extractable —
/// the pre-filter between the two sampling passes.
fn keep_extractable(pop: &Vec<ProjectRecord>, picked: &Vec<usize>) -> (r: Vec<usize>)
    requires
        forall|k: int| 0 <= k < picked@.len() ==> (#[trigger] picked@[k]) < pop@.len(),
    ensures
        r@ == spec_extractable_subset(pop@, picked@),
        forall|k: int| 0 <= k < r@.len() ==> (#[trigger] r@[k]) < pop@.len(),
{
    let ghost pred = |ci: usize| spec_extract(pop@[ci as int]) is Ok;
    let mut r: Vec<usize> = Vec::new();
    let mut i: usize = 0;
    while i < picked.len()
        invariant
            i <= picked@.len(),
            forall|k: int| 0 <= k < picked@.len() ==> (#[trigger] picked@[k]) < pop@.len(),
            pred == (|ci: usize| spec_extract(pop@[ci as int]) is Ok),
            r@ == picked@.take(i as int).filter(pred),
            forall|k: int| 0 <= k < r@.len() ==> (#[trigger] r@[k]) < pop@.len(),
        decreases picked@.len() - i,
    {
        let ghost prefix = picked@.take(i as int);
        proof {
            assert(picked@.take(i + 1).drop_last() =~= prefix);
            assert(picked@.take(i + 1).last() == picked@[i as int]);
            reveal(Seq::filter);
            assert(picked@.take(i + 1).filter(pred) == if pred(picked@[i as int]) {
                prefix.filter(pred).push(picked@[i as int])
            } else {
                prefix.filter(pred)
            });
        }
        if crate::extract::can_map_to_output_format(&pop[picked[i]]) {
            r.push(picked[i]);
        }
        i += 1;
    }
    proof {
        assert(picked@.take(picked@.len() as int) =~= picked@);
    }
    r
}

/// Extracts one project into the accumulated rows and warnings.
fn extract_into(p: &ProjectRecord, rows: &mut Vec<OutputRow>, warnings: &mut Vec<RunWarning>)
    ensures
        final(rows)@ == old(rows)@ + (match spec_extract(*p) {
            Ok(pair) => pair.0,
            Err(_) => Seq::<OutputRow>::empty(),
        }),
        final(warnings)@ == old(warnings)@ + spec_project_warnings(*p),
{
    match extract_default_snapshot(p) {
        Err(e) => {
            warnings.push(RunWarning::ProjectSkipped { pid: p.id, reason: e });
            proof {
                assert(warnings@ =~= old(warnings)@ + spec_project_warnings(*p));
                assert(rows@ =~= old(rows)@ + Seq::<OutputRow>::empty());
            }
        },
        Ok(mut e) => {
            rows.append(&mut e.rows);
            let ghost pid = p.id;
            let ghost f = |w: ExtractWarning| RunWarning::ProjectAnomaly {
                pid: pid,
                warning: w,
            };
            let ghost ws = e.warnings@;
            let ghost base = warnings@;
            let mut i: usize = 0;
            while i < e.warnings.len()
                invariant
                    i <= ws.len(),
                    pid == p.id,
                    e.warnings@ == ws,
                    f == (|w: ExtractWarning| RunWarning::ProjectAnomaly {
                        pid: pid,
                        warning: w,
                    }),
                    warnings@ == base + ws.take(i as int).map_values(f),
                decreases ws.len() - i,
            {
                let w = e.warnings[i];
                warnings.push(RunWarning::ProjectAnomaly { pid: p.id, warning: w });
                proof {
                    assert(ws.take(i + 1).map_values(f) =~= ws.take(i as int).map_values(f).push(
                        f(ws[i as int]),
                    ));
                    assert(warnings@ =~= base + ws.take(i + 1).map_values(f));
                }
                i += 1;
            }
            proof {
                assert(ws.take(ws.len() as int) =~= ws);
                assert(spec_project_warnings(*p) =~= ws.map_values(f));
            }
        },
    }
}

/// Extracts every picked project, in picked order.
fn collect_rows(pop: &Vec<ProjectRecord>, picked: &Vec<usize>) -> (r: (
    Vec<OutputRow>,
    Vec<RunWarning>,
))
    requires
        forall|k: int| 0 <= k < picked@.len() ==> (#[trigger] picked@[k]) < pop@.len(),
    ensures
        r.0@ == spec_rows_of(pop@, picked@),
        r.1@ == spec_warnings_of(pop@, picked@),
{
    let mut rows: Vec<OutputRow> = Vec::new();
    let mut warnings: Vec<RunWarning> = Vec::new();
    let mut i: usize = 0;
    proof {
        assert(picked@.skip(0) =~= picked@);
    }
    while i < picked.len()
        invariant
            i <= picked@.len(),
            forall|k: int| 0 <= k < picked@.len() ==> (#[trigger] picked@[k]) < pop@.len(),
            spec_rows_of(pop@, picked@) == rows@ + spec_rows_of(pop@, picked@.skip(i as int)),
            spec_warnings_of(pop@, picked@) == warnings@ + spec_warnings_of(
                pop@,
                picked@.skip(i as int),
            ),
        decreases picked@.len() - i,
    {
        let ghost before = picked@.skip(i as int);
        proof {
            assert(before.drop_first() =~= picked@.skip(i + 1));
            assert(before[0] == picked@[i as int]);
        }
        extract_into(&pop[picked[i]], &mut rows, &mut warnings);
        i += 1;
    }
    proof {
        assert(picked@.skip(picked@.len() as int) =~= Seq::<usize>::empty());
        assert(rows@ + Seq::<OutputRow>::empty() == rows@);
        assert(warnings@ + Seq::<RunWarning>::empty() == warnings@);
    }
    (rows, warnings)
}

/// The final sample of a stars query: top pre-pool by stars, keep the
/// extractable, top final size by stars again.
pub open spec fn spec_stars_picked(
    pop: Seq<ProjectRecord>,
    lang: Language,
    pre: nat,
    size: nat,
) -> Seq<usize> {
    let elig = spec_eligible(pop, seq![Criterion::LanguageIs(lang)]);
    let pass1 = spec_top_k(pop, Metric::Stars, elig, pre);
    let kept = spec_extractable_subset(pop, pass1);
    spec_top_k(pop, Metric::Stars, kept, size)
}

/// The final sample of a seeded random query: a fresh draw with the
/// round's seed against the criteria-filtered population.
pub open spec fn spec_random_picked(
    pop: Seq<ProjectRecord>,
    cs: Seq<Criterion>,
    size: nat,
    seed: u128,
) -> Seq<usize> {
    spec_draw(spec_eligible(pop, cs), size, spec_init_state(seed))
}

/// The final sample of a distinctness-and-ratio query.
pub open spec fn spec_distinct_picked(
    pop: Seq<ProjectRecord>,
    cs: Seq<Criterion>,
    size: nat,
    seed: u128,
    ratio: MinRatio,
) -> Seq<usize> {
    spec_draw_distinct(
        pop,
        spec_eligible(pop, cs),
        size,
        spec_init_state(seed),
        Set::empty(),
        ratio,
    )
}

/// Top-K pipeline: select the language, take the `pre` top-starred
/// projects, keep those that convert, and take the `size` top-starred of
/// what is left; extract and render.
pub fn run_stars_query(
    pop: &Vec<ProjectRecord>,
    lang: Language,
    pre: usize,
    size: usize,
    filename: &str,
) -> (r: QueryResult)
    ensures
        r.rows@ == spec_rows_of(pop@, spec_stars_picked(pop@, lang, pre as nat, size as nat)),
        r.warnings@ == spec_warnings_of(
            pop@,
            spec_stars_picked(pop@, lang, pre as nat, size as nat),
        ),
        r.csv@ == spec_csv(r.rows@),
        r.filename@ == filename@,
        r.extractable_in_first_pass == spec_extractable_subset(
            pop@,
            spec_top_k(
                pop@,
                Metric::Stars,
                spec_eligible(pop@, seq![Criterion::LanguageIs(lang)]),
                pre as nat,
            ),
        ).len(),
        r.underfilled == (r.extractable_in_first_pass < size),
{
    let mut criteria: Vec<Criterion> = Vec::new();
    criteria.push(Criterion::LanguageIs(lang));
    proof {
        assert(criteria@ =~= seq![Criterion::LanguageIs(lang)]);
    }
    let elig = filter_indices(pop, &criteria);
    let pass1 = top_k(pop, elig, Metric::Stars, pre);
    let kept = keep_extractable(pop, &pass1);
    let n1 = kept.len();
    let picked = top_k(pop, kept, Metric::Stars, size);
    let (rows, warnings) = collect_rows(pop, &picked);
    let csv = render_csv(&rows);
    QueryResult {
        csv,
        rows,
        warnings,
        extractable_in_first_pass: n1,
        underfilled: n1 < size,
        filename: String::from_str(filename),
    }
}

/// Two-pass seeded random pipeline: the oversized first pass only checks,
/// before the expensive final draw, how many candidates are extractable;
/// the final pass re-draws with the same seed against the population.
pub fn run_random_query(
    pop: &Vec<ProjectRecord>,
    criteria: &Vec<Criterion>,
    first_pass: usize,
    size: usize,
    seed: u128,
    filename: &str,
) -> (r: QueryResult)
    ensures
        r.rows@ == spec_rows_of(pop@, spec_random_picked(pop@, criteria@, size as nat, seed)),
        r.warnings@ == spec_warnings_of(
            pop@,
            spec_random_picked(pop@, criteria@, size as nat, seed),
        ),
        r.csv@ == spec_csv(r.rows@),
        r.filename@ == filename@,
        r.extractable_in_first_pass == spec_extractable_subset(
            pop@,
            spec_random_picked(pop@, criteria@, first_pass as nat, seed),
        ).len(),
        r.underfilled == (r.extractable_in_first_pass < size),
{
    let elig = filter_indices(pop, criteria);
    let pass1 = sample_random(copy_indices(&elig), first_pass, seed);
    proof {
        assert forall|k: int| 0 <= k < pass1@.len() implies (#[trigger] pass1@[k])
            < pop@.len() by {
            assert(elig@.contains(pass1@[k]));
            let j = choose|j: int| 0 <= j < elig@.len() && elig@[j] == pass1@[k];
            assert(elig@[j] < pop@.len());
        }
    }
    let kept = keep_extractable(pop, &pass1);
    let n1 = kept.len();
    let picked = sample_random(elig, size, seed);
    proof {
        assert forall|k: int| 0 <= k < picked@.len() implies (#[trigger] picked@[k])
            < pop@.len() by {
            assert(elig@.contains(picked@[k]));
            let j = choose|j: int| 0 <= j < elig@.len() && elig@[j] == picked@[k];
            assert(elig@[j] < pop@.len());
        }
    }
    let (rows, warnings) = collect_rows(pop, &picked);
    let csv = render_csv(&rows);
    QueryResult {
        csv,
        rows,
        warnings,
        extractable_in_first_pass: n1,
        underfilled: n1 < size,
        filename: String::from_str(filename),
    }
}

/// Two-pass distinctness-and-ratio pipeline, shaped as the random one.
pub fn run_distinct_query(
    pop: &Vec<ProjectRecord>,
    criteria: &Vec<Criterion>,
    first_pass: usize,
    size: usize,
    seed: u128,
    ratio: MinRatio,
    filename: &str,
) -> (r: QueryResult)
    ensures
        r.rows@ == spec_rows_of(
            pop@,
            spec_distinct_picked(pop@, criteria@, size as nat, seed, ratio),
        ),
        r.warnings@ == spec_warnings_of(
            pop@,
            spec_distinct_picked(pop@, criteria@, size as nat, seed, ratio),
        ),
        r.csv@ == spec_csv(r.rows@),
        r.filename@ == filename@,
        r.extractable_in_first_pass == spec_extractable_subset(
            pop@,
            spec_distinct_picked(pop@, criteria@, first_pass as nat, seed, ratio),
        ).len(),
        r.underfilled == (r.extractable_in_first_pass < size),
{
    let elig = filter_indices(pop, criteria);
    let pass1 = sample_distinct_random(pop, copy_indices(&elig), first_pass, seed, ratio);
    let kept = keep_extractable(pop, &pass1);
    let n1 = kept.len();
    let picked = sample_distinct_random(pop, elig, size, seed, ratio);
    let (rows, warnings) = collect_rows(pop, &picked);
    let csv = render_csv(&rows);
    QueryResult {
        csv,
        rows,
        warnings,
        extractable_in_first_pass: n1,
        underfilled: n1 < size,
        filename: String::from_str(filename),
    }
}

/// The ratio threshold every distinctness round of this system uses: the
/// commit count must reach nine tenths of the reference quantity.
pub open spec fn spec_commit_ratio() -> MinRatio {
    MinRatio { metric: Metric::Commits, num: 9, den: 10 }
}

fn commit_ratio() -> (r: MinRatio)
    ensures
        r == spec_commit_ratio(),
{
    MinRatio { metric: Metric::Commits, num: 9, den: 10 }
}

/// The criteria of an "all projects" round: the language tag alone.
pub open spec fn spec_language_criteria(lang: Language) -> Seq<Criterion> {
    seq![Criterion::LanguageIs(lang)]
}

fn language_criteria(lang: Language) -> (r: Vec<Criterion>)
    ensures
        r@ == spec_language_criteria(lang),
{
    let mut v: Vec<Criterion> = Vec::new();
    v.push(Criterion::LanguageIs(lang));
    proof {
        assert(v@ =~= spec_language_criteria(lang));
    }
    v
}

/// The criteria of a "developed projects" round: the language tag and
/// the maturity thresholds, combined by conjunction.
pub open spec fn spec_developed_criteria(
    lang: Language,
    h_index: u64,
    age_days: u64,
    developers: u64,
    locs: u64,
    snapshots: u64,
    commits: u64,
) -> Seq<Criterion> {
    seq![
        Criterion::LanguageIs(lang),
        Criterion::AtLeast(Metric::MaxHIndex, h_index),
        Criterion::AtLeast(Metric::AgeDays, age_days),
        Criterion::AtLeast(Metric::Developers, developers),
        Criterion::AtLeast(Metric::Locs, locs),
        Criterion::AtLeast(Metric::Snapshots, snapshots),
        Criterion::AtLeast(Metric::Commits, commits),
    ]
}

fn developed_criteria(
    lang: Language,
    h_index: u64,
    age_days: u64,
    developers: u64,
    locs: u64,
    snapshots: u64,
    commits: u64,
) -> (r: Vec<Criterion>)
    ensures
        r@ == spec_developed_criteria(
            lang,
            h_index,
            age_days,
            developers,
            locs,
            snapshots,
            commits,
        ),
{
    let mut v: Vec<Criterion> = Vec::new();
    v.push(Criterion::LanguageIs(lang));
    v.push(Criterion::AtLeast(Metric::MaxHIndex, h_index));
    v.push(Criterion::AtLeast(Metric::AgeDays, age_days));
    v.push(Criterion::AtLeast(Metric::Developers, developers));
    v.push(Criterion::AtLeast(Metric::Locs, locs));
    v.push(Criterion::AtLeast(Metric::Snapshots, snapshots));
    v.push(Criterion::AtLeast(Metric::Commits, commits));
    proof {
        assert(v@ =~= spec_developed_criteria(
            lang,
            h_index,
            age_days,
            developers,
            locs,
            snapshots,
            commits,
        ));
    }
    v
}

/// Top-starred Java projects.
pub fn sample_stars_java(pop: &Vec<ProjectRecord>) -> (r: QueryResult)
    ensures
        r.rows@ == spec_rows_of(
            pop@,
            spec_stars_picked(
                pop@,
                Language::Java,
                STARS_POOL_SIZE as nat,
                SELECTION_SIZE as nat,
            ),
        ),
        r.warnings@ == spec_warnings_of(
            pop@,
            spec_stars_picked(
                pop@,
                Language::Java,
                STARS_POOL_SIZE as nat,
                SELECTION_SIZE as nat,
            ),
        ),
        r.csv@ == spec_csv(r.rows@),
        r.filename@ == "sample_stars.csv"@,
        r.extractable_in_first_pass == spec_extractable_subset(
            pop@,
            spec_top_k(
                pop@,
                Metric::Stars,
                spec_eligible(pop@, spec_language_criteria(Language::Java)),
                STARS_POOL_SIZE as nat,
            ),
        ).len(),
        r.underfilled == (r.extractable_in_first_pass < SELECTION_SIZE),
{
    run_stars_query(pop, Language::Java, STARS_POOL_SIZE, SELECTION_SIZE, "sample_stars.csv")
}

/// Top-starred Python projects.
pub fn sample_stars_py(pop: &Vec<ProjectRecord>) -> (r: QueryResult)
    ensures
        r.rows@ == spec_rows_of(
            pop@,
            spec_stars_picked(
                pop@,
                Language::Python,
                STARS_POOL_SIZE as nat,
                SELECTION_SIZE as nat,
            ),
        ),
        r.warnings@ == spec_warnings_of(
            pop@,
            spec_stars_picked(
                pop@,
                Language::Python,
                STARS_POOL_SIZE as nat,
                SELECTION_SIZE as nat,
            ),
        ),
        r.csv@ == spec_csv(r.rows@),
        r.filename@ == "sample_stars.csv"@,
        r.extractable_in_first_pass == spec_extractable_subset(
            pop@,
            spec_top_k(
                pop@,
                Metric::Stars,
                spec_eligible(pop@, spec_language_criteria(Language::Python)),
                STARS_POOL_SIZE as nat,
            ),
        ).len(),
        r.underfilled == (r.extractable_in_first_pass < SELECTION_SIZE),
{
    run_stars_query(pop, Language::Python, STARS_POOL_SIZE, SELECTION_SIZE, "sample_stars.csv")
}

/// Top-starred JavaScript projects.
pub fn sample_stars_js(pop: &Vec<ProjectRecord>) -> (r: QueryResult)
    ensures
        r.rows@ == spec_rows_of(
            pop@,
            spec_stars_picked(
                pop@,
                Language::JavaScript,
                STARS_POOL_SIZE as nat,
                SELECTION_SIZE as nat,
            ),
        ),
        r.warnings@ == spec_warnings_of(
            pop@,
            spec_stars_picked(
                pop@,
                Language::JavaScript,
                STARS_POOL_SIZE as nat,
                SELECTION_SIZE as nat,
            ),
        ),
        r.csv@ == spec_csv(r.rows@),
        r.filename@ == "sample_stars.csv"@,
        r.extractable_in_first_pass == spec_extractable_subset(
            pop@,
            spec_top_k(
                pop@,
                Metric::Stars,
                spec_eligible(pop@, spec_language_criteria(Language::JavaScript)),
                STARS_POOL_SIZE as nat,
            ),
        ).len(),
        r.underfilled == (r.extractable_in_first_pass < SELECTION_SIZE),
{
    run_stars_query(
        pop,
        Language::JavaScript,
        STARS_POOL_SIZE,
        SELECTION_SIZE,
        "sample_stars.csv",
    )
}

/// A distinctness-and-ratio random sample over all Java projects.
pub fn sample_all_java(pop: &Vec<ProjectRecord>) -> (r: QueryResult)
    ensures
        r.rows@ == spec_rows_of(
            pop@,
            spec_distinct_picked(
                pop@,
                spec_language_criteria(Language::Java),
                SELECTION_SIZE as nat,
                SEED_ALL,
                spec_commit_ratio(),
            ),
        ),
        r.warnings@ == spec_warnings_of(
            pop@,
            spec_distinct_picked(
                pop@,
                spec_language_criteria(Language::Java),
                SELECTION_SIZE as nat,
                SEED_ALL,
                spec_commit_ratio(),
            ),
        ),
        r.csv@ == spec_csv(r.rows@),
        r.filename@ == "sample_all.csv"@,
        r.extractable_in_first_pass == spec_extractable_subset(
            pop@,
            spec_distinct_picked(
                pop@,
                spec_language_criteria(Language::Java),
                (SELECTION_SIZE + OVERSAMPLE) as nat,
                SEED_ALL,
                spec_commit_ratio(),
            ),
        ).len(),
        r.underfilled == (r.extractable_in_first_pass < SELECTION_SIZE),
{
    let criteria = language_criteria(Language::Java);
    run_distinct_query(
        pop,
        &criteria,
        SELECTION_SIZE + OVERSAMPLE,
        SELECTION_SIZE,
        SEED_ALL,
        commit_ratio(),
        "sample_all.csv",
    )
}

/// A plain seeded random sample over all Python projects.
pub fn sample_all_py(pop: &Vec<ProjectRecord>) -> (r: QueryResult)
    ensures
        r.rows@ == spec_rows_of(
            pop@,
            spec_random_picked(
                pop@,
                spec_language_criteria(Language::Python),
                SELECTION_SIZE as nat,
                SEED_ALL,
            ),
        ),
        r.warnings@ == spec_warnings_of(
            pop@,
            spec_random_picked(
                pop@,
                spec_language_criteria(Language::Python),
                SELECTION_SIZE as nat,
                SEED_ALL,
            ),
        ),
        r.csv@ == spec_csv(r.rows@),
        r.filename@ == "sample_all.csv"@,
        r.extractable_in_first_pass == spec_extractable_subset(
            pop@,
            spec_random_picked(
                pop@,
                spec_language_criteria(Language::Python),
                (SELECTION_SIZE + OVERSAMPLE) as nat,
                SEED_ALL,
            ),
        ).len(),
        r.underfilled == (r.extractable_in_first_pass < SELECTION_SIZE),
{
    let criteria = language_criteria(Language::Python);
    run_random_query(
        pop,
        &criteria,
        SELECTION_SIZE + OVERSAMPLE,
        SELECTION_SIZE,
        SEED_ALL,
        "sample_all.csv",
    )
}

/// A plain seeded random sample over all JavaScript projects.
pub fn sample_all_js(pop: &Vec<ProjectRecord>) -> (r: QueryResult)
    ensures
        r.rows@ == spec_rows_of(
            pop@,
            spec_random_picked(
                pop@,
                spec_language_criteria(Language::JavaScript),
                SELECTION_SIZE as nat,
                SEED_ALL,
            ),
        ),
        r.warnings@ == spec_warnings_of(
            pop@,
            spec_random_picked(
                pop@,
                spec_language_criteria(Language::JavaScript),
                SELECTION_SIZE as nat,
                SEED_ALL,
            ),
        ),
        r.csv@ == spec_csv(r.rows@),
        r.filename@ == "sample_all.csv"@,
        r.extractable_in_first_pass == spec_extractable_subset(
            pop@,
            spec_random_picked(
                pop@,
                spec_language_criteria(Language::JavaScript),
                (SELECTION_SIZE + OVERSAMPLE) as nat,
                SEED_ALL,
            ),
        ).len(),
        r.underfilled == (r.extractable_in_first_pass < SELECTION_SIZE),
{
    let criteria = language_criteria(Language::JavaScript);
    run_random_query(
        pop,
        &criteria,
        SELECTION_SIZE + OVERSAMPLE,
        SELECTION_SIZE,
        SEED_ALL,
        "sample_all.csv",
    )
}

/// Developed Java projects: maturity thresholds, then a
/// distinctness-and-ratio random sample.
pub fn sample_developed_java(pop: &Vec<ProjectRecord>) -> (r: QueryResult)
    ensures
        r.rows@ == spec_rows_of(
            pop@,
            spec_distinct_picked(
                pop@,
                spec_developed_criteria(Language::Java, 3, 364, 3, 716, 20, 26),
                SELECTION_SIZE as nat,
                SEED_100LOC_7D_10C,
                spec_commit_ratio(),
            ),
        ),
        r.warnings@ == spec_warnings_of(
            pop@,
            spec_distinct_picked(
                pop@,
                spec_developed_criteria(Language::Java, 3, 364, 3, 716, 20, 26),
                SELECTION_SIZE as nat,
                SEED_100LOC_7D_10C,
                spec_commit_ratio(),
            ),
        ),
        r.csv@ == spec_csv(r.rows@),
        r.filename@ == "sample_developed.csv"@,
        r.extractable_in_first_pass == spec_extractable_subset(
            pop@,
            spec_distinct_picked(
                pop@,
                spec_developed_criteria(Language::Java, 3, 364, 3, 716, 20, 26),
                (SELECTION_SIZE + OVERSAMPLE) as nat,
                SEED_100LOC_7D_10C,
                spec_commit_ratio(),
            ),
        ).len(),
        r.underfilled == (r.extractable_in_first_pass < SELECTION_SIZE),
{
    let criteria = developed_criteria(Language::Java, 3, 364, 3, 716, 20, 26);
    run_distinct_query(
        pop,
        &criteria,
        SELECTION_SIZE + OVERSAMPLE,
        SELECTION_SIZE,
        SEED_100LOC_7D_10C,
        commit_ratio(),
        "sample_developed.csv",
    )
}

/// Developed Python projects.
pub fn sample_developed_py(pop: &Vec<ProjectRecord>) -> (r: QueryResult)
    ensures
        r.rows@ == spec_rows_of(
            pop@,
            spec_distinct_picked(
                pop@,
                spec_developed_criteria(Language::Python, 3, 240, 3, 286, 18, 23),
                SELECTION_SIZE as nat,
                SEED_100LOC_7D_10C,
                spec_commit_ratio(),
            ),
        ),
        r.warnings@ == spec_warnings_of(
            pop@,
            spec_distinct_picked(
                pop@,
                spec_developed_criteria(Language::Python, 3, 240, 3, 286, 18, 23),
                SELECTION_SIZE as nat,
                SEED_100LOC_7D_10C,
                spec_commit_ratio(),
            ),
        ),
        r.csv@ == spec_csv(r.rows@),
        r.filename@ == "sample_developed.csv"@,
        r.extractable_in_first_pass == spec_extractable_subset(
            pop@,
            spec_distinct_picked(
                pop@,
                spec_developed_criteria(Language::Python, 3, 240, 3, 286, 18, 23),
                (SELECTION_SIZE + OVERSAMPLE) as nat,
                SEED_100LOC_7D_10C,
                spec_commit_ratio(),
            ),
        ).len(),
        r.underfilled == (r.extractable_in_first_pass < SELECTION_SIZE),
{
    let criteria = developed_criteria(Language::Python, 3, 240, 3, 286, 18, 23);
    run_distinct_query(
        pop,
        &criteria,
        SELECTION_SIZE + OVERSAMPLE,
        SELECTION_SIZE,
        SEED_100LOC_7D_10C,
        commit_ratio(),
        "sample_developed.csv",
    )
}

/// Developed JavaScript projects.
pub fn sample_developed_js(pop: &Vec<ProjectRecord>) -> (r: QueryResult)
    ensures
        r.rows@ == spec_rows_of(
            pop@,
            spec_distinct_picked(
                pop@,
                spec_developed_criteria(Language::JavaScript, 1, 46, 2, 307, 16, 14),
                SELECTION_SIZE as nat,
                SEED_100LOC_7D_10C,
                spec_commit_ratio(),
            ),
        ),
        r.warnings@ == spec_warnings_of(
            pop@,
            spec_distinct_picked(
                pop@,
                spec_developed_criteria(Language::JavaScript, 1, 46, 2, 307, 16, 14),
                SELECTION_SIZE as nat,
                SEED_100LOC_7D_10C,
                spec_commit_ratio(),
            ),
        ),
        r.csv@ == spec_csv(r.rows@),
        r.filename@ == "sample_developed.csv"@,
        r.extractable_in_first_pass == spec_extractable_subset(
            pop@,
            spec_distinct_picked(
                pop@,
                spec_developed_criteria(Language::JavaScript, 1, 46, 2, 307, 16, 14),
                (SELECTION_SIZE + OVERSAMPLE) as nat,
                SEED_100LOC_7D_10C,
                spec_commit_ratio(),
            ),
        ).len(),
        r.underfilled == (r.extractable_in_first_pass < SELECTION_SIZE),
{
    let criteria = developed_criteria(Language::JavaScript, 1, 46, 2, 307, 16, 14);
    run_distinct_query(
        pop,
        &criteria,
        SELECTION_SIZE + OVERSAMPLE,
        SELECTION_SIZE,
        SEED_100LOC_7D_10C,
        commit_ratio(),
        "sample_developed.csv",
    )
}

} // verus!

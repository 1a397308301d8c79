//! Samplers: deterministic top-K by metric, seeded uniform random without
//! replacement, and seeded random with distinctness and a minimum-ratio
//! validity check. Each sampler works on a list of candidate positions
//! into a fixed population and is a pure function of its arguments, so a
//! fixed population and seed always give the identical sample.
use vstd::prelude::*;
use vstd::multiset::Multiset;

use crate::model::{Metric, MinRatio, ProjectRecord, spec_metric_value, metric_value, spec_ratio_ok,
    ratio_ok};

verus! {

/// Multiplier of the linear-congruential step (Knuth's MMIX constants).
pub const LCG_MUL: u64 = 6364136223846793005;

/// Increment of the linear-congruential step.
pub const LCG_INC: u64 = 1442695040888963407;

/// One more than the largest 64-bit state value.
pub const TWO_POW_64: u128 = 0x1_0000_0000_0000_0000;

pub open spec fn spec_next_state(s: u64) -> u64 {
    ((s * LCG_MUL + LCG_INC) % (TWO_POW_64 as int)) as u64
}

/// A sampling round's 128-bit seed folded into the initial generator state.
pub open spec fn spec_init_state(seed: u128) -> u64 {
    ((((seed as int) % (TWO_POW_64 as int)) + ((seed as int) / (TWO_POW_64 as int))) % (
    TWO_POW_64 as int)) as u64
}

fn next_state(s: u64) -> (r: u64)
    ensures
        r == spec_next_state(s),
{
    proof {
        assert((s as u128) * (LCG_MUL as u128) <= 0xFFFF_FFFF_FFFF_FFFFu128 * (
        LCG_MUL as u128)) by (nonlinear_arith)
            requires
                s <= 0xFFFF_FFFF_FFFF_FFFFu128,
        ;
    }
    let wide: u128 = (s as u128) * (LCG_MUL as u128) + (LCG_INC as u128);
    let r: u128 = wide % TWO_POW_64;
    r as u64
}

fn init_state(seed: u128) -> (r: u64)
    ensures
        r == spec_init_state(seed),
{
    let lo: u128 = seed % TWO_POW_64;
    let hi: u128 = seed / TWO_POW_64;
    ((lo + hi) % TWO_POW_64) as u64
}

/// The candidate positions that a seeded uniform draw without replacement
/// selects, in the order it selects them.
pub open spec fn spec_draw(cand: Seq<usize>, n: nat, state: u64) -> Seq<usize>
    decreases cand.len(),
{
    if n == 0 || cand.len() == 0 {
        Seq::empty()
    } else {
        let st = spec_next_state(state);
        let i = (st as int) % (cand.len() as int);
        seq![cand[i]] + spec_draw(cand.remove(i), (n - 1) as nat, st)
    }
}

/// Seeded uniform sampling without replacement: draws up to `n` of the
/// candidate positions. The result is a pure function of the candidates,
/// `n` and the seed, so repeated runs return the identical sample.
pub fn sample_random(cand: Vec<usize>, n: usize, seed: u128) -> (r: Vec<usize>)
    ensures
        r@ == spec_draw(cand@, n as nat, spec_init_state(seed)),
        r@.len() == vstd::math::min(n as int, cand@.len() as int),
        forall|k: int| 0 <= k < r@.len() ==> cand@.contains(#[trigger] r@[k]),
{
    let mut state: u64 = init_state(seed);
    let mut rest = cand;
    let mut out: Vec<usize> = Vec::new();
    let ghost all = cand@;
    let ghost init = spec_init_state(seed);
    while out.len() < n && rest.len() > 0
        invariant
            out@.len() <= n,
            out@.len() + rest@.len() == all.len(),
            spec_draw(all, n as nat, init) == out@ + spec_draw(
                rest@,
                (n - out@.len()) as nat,
                state,
            ),
            forall|k: int| 0 <= k < out@.len() ==> all.contains(#[trigger] out@[k]),
            forall|k: int| 0 <= k < rest@.len() ==> all.contains(#[trigger] rest@[k]),
        decreases rest@.len(),
    {
        let ghost prev_rest = rest@;
        let ghost prev_out = out@;
        let ghost prev_state = state;
        state = next_state(state);
        let len64: u64 = rest.len() as u64;
        let idx64: u64 = state % len64;
        let idx: usize = idx64 as usize;
        let x = rest.remove(idx);
        out.push(x);
        proof {
            assert(spec_draw(prev_rest, (n - prev_out.len()) as nat, prev_state) == seq![
                prev_rest[idx as int],
            ] + spec_draw(rest@, (n - out@.len()) as nat, state)) by {
                assert(idx as int == (state as int) % (prev_rest.len() as int));
            }
            assert(out@ + spec_draw(rest@, (n - out@.len()) as nat, state) == prev_out + (seq![
                prev_rest[idx as int],
            ] + spec_draw(rest@, (n - out@.len()) as nat, state)));
            assert forall|k: int| 0 <= k < rest@.len() implies all.contains(
                #[trigger] rest@[k],
            ) by {
                if k < idx {
                    assert(rest@[k] == prev_rest[k]);
                } else {
                    assert(rest@[k] == prev_rest[k + 1]);
                }
            }
        }
    }
    proof {
        assert(spec_draw(rest@, (n - out@.len()) as nat, state) == Seq::<usize>::empty());
        assert(out@ + Seq::<usize>::empty() == out@);
    }
    out
}

/// The candidate positions that the distinctness-and-ratio draw selects.
/// A drawn candidate that fails the ratio threshold, or whose project id
/// was already selected, is discarded and does not count against the
/// quota, so the draw continues into the rest of the pool.
pub open spec fn spec_draw_distinct(
    pool: Seq<ProjectRecord>,
    cand: Seq<usize>,
    k: nat,
    state: u64,
    chosen: Set<u64>,
    ratio: MinRatio,
) -> Seq<usize>
    decreases cand.len(),
{
    if k == 0 || cand.len() == 0 {
        Seq::empty()
    } else {
        let st = spec_next_state(state);
        let i = (st as int) % (cand.len() as int);
        let ci = cand[i];
        let p = pool[ci as int];
        if spec_ratio_ok(p, ratio) && !chosen.contains(p.id) {
            seq![ci] + spec_draw_distinct(
                pool,
                cand.remove(i),
                (k - 1) as nat,
                st,
                chosen.insert(p.id),
                ratio,
            )
        } else {
            spec_draw_distinct(pool, cand.remove(i), k, st, chosen, ratio)
        }
    }
}

fn contains_id(pool: &Vec<ProjectRecord>, out: &Vec<usize>, id: u64) -> (b: bool)
    requires
        forall|k: int| 0 <= k < out@.len() ==> (#[trigger] out@[k]) < pool@.len(),
    ensures
        b == exists|k: int| 0 <= k < out@.len() && pool@[#[trigger] out@[k] as int].id == id,
{
    let mut i: usize = 0;
    while i < out.len()
        invariant
            i <= out@.len(),
            forall|k: int| 0 <= k < out@.len() ==> (#[trigger] out@[k]) < pool@.len(),
            forall|k: int| 0 <= k < i ==> pool@[#[trigger] out@[k] as int].id != id,
        decreases out@.len() - i,
    {
        if pool[out[i]].id == id {
            return true;
        }
        i += 1;
    }
    false
}

/// Seeded random sampling with distinctness and a minimum-ratio validity
/// check. No project id appears twice in the sample, every sampled
/// project passes the ratio threshold, and the draw returns fewer than
/// `n` positions only once the whole candidate pool is exhausted: every
/// ratio-passing candidate is then already represented by its id.
pub fn sample_distinct_random(
    pool: &Vec<ProjectRecord>,
    cand: Vec<usize>,
    n: usize,
    seed: u128,
    ratio: MinRatio,
) -> (r: Vec<usize>)
    requires
        forall|k: int| 0 <= k < cand@.len() ==> (#[trigger] cand@[k]) < pool@.len(),
    ensures
        r@ == spec_draw_distinct(
            pool@,
            cand@,
            n as nat,
            spec_init_state(seed),
            Set::empty(),
            ratio,
        ),
        r@.len() <= n,
        forall|k: int|
            0 <= k < r@.len() ==> (#[trigger] r@[k]) < pool@.len() && cand@.contains(r@[k]),
        forall|k: int| 0 <= k < r@.len() ==> spec_ratio_ok(pool@[#[trigger] r@[k] as int], ratio),
        forall|k1: int, k2: int|
            0 <= k1 < k2 < r@.len() ==> pool@[#[trigger] r@[k1] as int].id != pool@[
                #[trigger] r@[k2] as int
            ].id,
        r@.len() < n ==> forall|j: int|
            0 <= j < cand@.len() && spec_ratio_ok(pool@[#[trigger] cand@[j] as int], ratio)
                ==> exists|k: int|
                0 <= k < r@.len() && pool@[#[trigger] r@[k] as int].id == pool@[cand@[j] as int].id,
{
    let mut state: u64 = init_state(seed);
    let mut rest = cand;
    let mut out: Vec<usize> = Vec::new();
    let ghost all = cand@;
    let ghost init = spec_init_state(seed);
    let ghost mut chosen: Set<u64> = Set::empty();
    while out.len() < n && rest.len() > 0
        invariant
            out@.len() <= n,
            forall|k: int|
                0 <= k < rest@.len() ==> (#[trigger] rest@[k]) < pool@.len() && all.contains(
                    rest@[k],
                ),
            forall|k: int|
                0 <= k < out@.len() ==> (#[trigger] out@[k]) < pool@.len() && all.contains(
                    out@[k],
                ),
            spec_draw_distinct(pool@, all, n as nat, init, Set::empty(), ratio) == out@
                + spec_draw_distinct(
                pool@,
                rest@,
                (n - out@.len()) as nat,
                state,
                chosen,
                ratio,
            ),
            forall|id: u64|
                chosen.contains(id) <==> exists|k: int|
                    0 <= k < out@.len() && pool@[#[trigger] out@[k] as int].id == id,
            forall|k: int|
                0 <= k < out@.len() ==> spec_ratio_ok(pool@[#[trigger] out@[k] as int], ratio),
            forall|k1: int, k2: int|
                0 <= k1 < k2 < out@.len() ==> pool@[#[trigger] out@[k1] as int].id != pool@[
                    #[trigger] out@[k2] as int
                ].id,
            forall|x: usize|
                #[trigger] all.contains(x) ==> rest@.contains(x) || chosen.contains(
                    pool@[x as int].id,
                ) || !spec_ratio_ok(pool@[x as int], ratio),
        decreases rest@.len(),
    {
        let ghost prev_rest = rest@;
        let ghost prev_out = out@;
        let ghost prev_state = state;
        let ghost prev_chosen = chosen;
        state = next_state(state);
        let len64: u64 = rest.len() as u64;
        let idx64: u64 = state % len64;
        let idx: usize = idx64 as usize;
        let ci = rest.remove(idx);
        proof {
            assert(idx as int == (state as int) % (prev_rest.len() as int));
            assert(ci == prev_rest[idx as int]);
        }
        let accept = ratio_ok(&pool[ci], ratio) && !contains_id(pool, &out, pool[ci].id);
        if accept {
            out.push(ci);
            proof {
                chosen = prev_chosen.insert(pool@[ci as int].id);
                assert(spec_draw_distinct(
                    pool@,
                    prev_rest,
                    (n - prev_out.len()) as nat,
                    prev_state,
                    prev_chosen,
                    ratio,
                ) == seq![ci] + spec_draw_distinct(
                    pool@,
                    rest@,
                    (n - out@.len()) as nat,
                    state,
                    chosen,
                    ratio,
                ));
                assert(out@ + spec_draw_distinct(
                    pool@,
                    rest@,
                    (n - out@.len()) as nat,
                    state,
                    chosen,
                    ratio,
                ) == prev_out + (seq![ci] + spec_draw_distinct(
                    pool@,
                    rest@,
                    (n - out@.len()) as nat,
                    state,
                    chosen,
                    ratio,
                )));
                assert forall|id: u64| chosen.contains(id) implies exists|k: int|
                    0 <= k < out@.len() && pool@[#[trigger] out@[k] as int].id == id by {
                    if id == pool@[ci as int].id {
                        assert(out@[out@.len() - 1] == ci);
                    } else {
                        let k = choose|k: int|
                            0 <= k < prev_out.len() && pool@[#[trigger] prev_out[k] as int].id
                                == id;
                        assert(out@[k] == prev_out[k]);
                    }
                }
            }
        } else {
            proof {
                assert(spec_draw_distinct(
                    pool@,
                    prev_rest,
                    (n - prev_out.len()) as nat,
                    prev_state,
                    prev_chosen,
                    ratio,
                ) == spec_draw_distinct(
                    pool@,
                    rest@,
                    (n - out@.len()) as nat,
                    state,
                    chosen,
                    ratio,
                ));
            }
        }
        proof {
            assert forall|k: int|
                0 <= k < rest@.len() implies (#[trigger] rest@[k]) < pool@.len() && all.contains(
                rest@[k],
            ) by {
                if k < idx {
                    assert(rest@[k] == prev_rest[k]);
                } else {
                    assert(rest@[k] == prev_rest[k + 1]);
                }
            }
            assert forall|x: usize|
                #[trigger] all.contains(x) implies rest@.contains(x) || chosen.contains(
                pool@[x as int].id,
            ) || !spec_ratio_ok(pool@[x as int], ratio) by {
                if prev_rest.contains(x) {
                    let j = choose|j: int| 0 <= j < prev_rest.len() && prev_rest[j] == x;
                    if j < idx {
                        assert(rest@[j] == x);
                    } else if j > idx {
                        assert(rest@[j - 1] == x);
                    } else {
                        assert(x == ci);
                    }
                }
            }
        }
    }
    proof {
        assert(spec_draw_distinct(pool@, rest@, (n - out@.len()) as nat, state, chosen, ratio)
            == Seq::<usize>::empty());
        assert(out@ + Seq::<usize>::empty() == out@);
        if out@.len() < n {
            assert forall|j: int|
                0 <= j < cand@.len() && spec_ratio_ok(
                    pool@[#[trigger] cand@[j] as int],
                    ratio,
                ) implies exists|k: int|
                0 <= k < out@.len() && pool@[#[trigger] out@[k] as int].id == pool@[
                    cand@[j] as int
                ].id by {
                let x = cand@[j];
                assert(all.contains(x));
                assert(!rest@.contains(x));
                assert(chosen.contains(pool@[x as int].id));
            }
        }
    }
    out
}

/// Every drawn position comes from the candidate pool.
pub proof fn lemma_draw_subset(cand: Seq<usize>, n: nat, state: u64)
    ensures
        forall|k: int|
            0 <= k < spec_draw(cand, n, state).len() ==> cand.contains(
                #[trigger] spec_draw(cand, n, state)[k],
            ),
    decreases cand.len(),
{
    let r = spec_draw(cand, n, state);
    if n == 0 || cand.len() == 0 {
    } else {
        let st = spec_next_state(state);
        let i = (st as int) % (cand.len() as int);
        let rest = cand.remove(i);
        lemma_draw_subset(rest, (n - 1) as nat, st);
        assert forall|k: int| 0 <= k < r.len() implies cand.contains(#[trigger] r[k]) by {
            if k == 0 {
                assert(r[0] == cand[i]);
            } else {
                assert(r[k] == spec_draw(rest, (n - 1) as nat, st)[k - 1]);
                assert(rest.contains(r[k]));
                let j = choose|j: int| 0 <= j < rest.len() && rest[j] == r[k];
                if j < i {
                    assert(cand[j] == r[k]);
                } else {
                    assert(cand[j + 1] == r[k]);
                }
            }
        }
    }
}

/// The uniform draw is without replacement: over a duplicate-free
/// candidate pool, no position is drawn twice.
pub proof fn lemma_draw_without_replacement(cand: Seq<usize>, n: nat, state: u64)
    requires
        forall|i: int, j: int| 0 <= i < j < cand.len() ==> cand[i] != cand[j],
    ensures
        forall|i: int, j: int|
            0 <= i < j < spec_draw(cand, n, state).len() ==> spec_draw(cand, n, state)[i]
                != spec_draw(cand, n, state)[j],
    decreases cand.len(),
{
    let r = spec_draw(cand, n, state);
    if n == 0 || cand.len() == 0 {
    } else {
        let st = spec_next_state(state);
        let i = (st as int) % (cand.len() as int);
        let rest = cand.remove(i);
        assert forall|a: int, b: int| 0 <= a < b < rest.len() implies rest[a] != rest[b] by {
            if b < i {
                assert(rest[a] == cand[a] && rest[b] == cand[b]);
            } else if a < i {
                assert(rest[a] == cand[a] && rest[b] == cand[b + 1]);
            } else {
                assert(rest[a] == cand[a + 1] && rest[b] == cand[b + 1]);
            }
        }
        lemma_draw_without_replacement(rest, (n - 1) as nat, st);
        lemma_draw_subset(rest, (n - 1) as nat, st);
        let tail = spec_draw(rest, (n - 1) as nat, st);
        assert forall|a: int, b: int| 0 <= a < b < r.len() implies r[a] != r[b] by {
            if a == 0 {
                assert(r[b] == tail[b - 1]);
                assert(rest.contains(tail[b - 1]));
                let j = choose|j: int| 0 <= j < rest.len() && rest[j] == tail[b - 1];
                if j < i {
                    assert(rest[j] == cand[j]);
                } else {
                    assert(rest[j] == cand[j + 1]);
                }
                assert(r[0] == cand[i]);
            } else {
                assert(r[a] == tail[a - 1] && r[b] == tail[b - 1]);
            }
        }
    }
}

/// Determinism of the uniform draw: one candidate pool, quota and seed
/// admit exactly one sample, whatever run or machine drew it. Together
/// with the postcondition of `sample_random`, repeated runs return
/// byte-identical samples.
pub proof fn lemma_random_draw_deterministic(
    cand: Seq<usize>,
    n: nat,
    seed: u128,
    a: Seq<usize>,
    b: Seq<usize>,
)
    requires
        a == spec_draw(cand, n, spec_init_state(seed)),
        b == spec_draw(cand, n, spec_init_state(seed)),
    ensures
        a == b,
{
}

/// Determinism of the distinctness-and-ratio draw, as for the uniform
/// one: the postcondition of `sample_distinct_random` pins its result to
/// a function of the population, pool, quota, seed and threshold alone.
pub proof fn lemma_distinct_draw_deterministic(
    pool: Seq<ProjectRecord>,
    cand: Seq<usize>,
    n: nat,
    seed: u128,
    ratio: MinRatio,
    a: Seq<usize>,
    b: Seq<usize>,
)
    requires
        a == spec_draw_distinct(pool, cand, n, spec_init_state(seed), Set::empty(), ratio),
        b == spec_draw_distinct(pool, cand, n, spec_init_state(seed), Set::empty(), ratio),
    ensures
        a == b,
{
}

/// The metric value of the project at population position `x`.
pub open spec fn spec_value(pool: Seq<ProjectRecord>, m: Metric, x: usize) -> u64 {
    spec_metric_value(pool[x as int], m)
}

pub open spec fn spec_fmi_from(pool: Seq<ProjectRecord>, m: Metric, cand: Seq<usize>, i: int, best: int) -> int
    decreases cand.len() - i,
{
    if i < 0 || i >= cand.len() {
        best
    } else if spec_value(pool, m, cand[i]) > spec_value(pool, m, cand[best]) {
        spec_fmi_from(pool, m, cand, i + 1, i)
    } else {
        spec_fmi_from(pool, m, cand, i + 1, best)
    }
}

/// The position, among the candidates, of the highest metric value; the
/// earliest such position on ties, so the store order breaks ties stably.
pub open spec fn spec_first_max(pool: Seq<ProjectRecord>, m: Metric, cand: Seq<usize>) -> int {
    let i0 = spec_fmi_from(pool, m, cand, 1, 0);
    if 0 <= i0 < cand.len() {
        i0
    } else {
        0
    }
}

/// The candidate positions in descending order of metric value, ties kept
/// in store order.
pub open spec fn spec_sort_desc(pool: Seq<ProjectRecord>, m: Metric, cand: Seq<usize>) -> Seq<
    usize,
>
    decreases cand.len(),
{
    if cand.len() == 0 {
        Seq::empty()
    } else {
        let i = spec_first_max(pool, m, cand);
        seq![cand[i]] + spec_sort_desc(pool, m, cand.remove(i))
    }
}

/// The first `k` candidate positions in descending order of metric value.
pub open spec fn spec_top_k(pool: Seq<ProjectRecord>, m: Metric, cand: Seq<usize>, k: nat) -> Seq<
    usize,
> {
    spec_sort_desc(pool, m, cand).take(vstd::math::min(k as int, cand.len() as int))
}

proof fn lemma_fmi_from_props(
    pool: Seq<ProjectRecord>,
    m: Metric,
    cand: Seq<usize>,
    i: int,
    best: int,
)
    requires
        0 <= best < cand.len(),
        best < i,
        forall|j: int| 0 <= j < i ==> spec_value(pool, m, cand[best]) >= spec_value(
            pool,
            m,
            #[trigger] cand[j],
        ),
    ensures
        0 <= spec_fmi_from(pool, m, cand, i, best) < cand.len(),
        forall|j: int|
            0 <= j < cand.len() ==> spec_value(
                pool,
                m,
                cand[spec_fmi_from(pool, m, cand, i, best)],
            ) >= spec_value(pool, m, #[trigger] cand[j]),
    decreases cand.len() - i,
{
    if i >= cand.len() {
    } else if spec_value(pool, m, cand[i]) > spec_value(pool, m, cand[best]) {
        lemma_fmi_from_props(pool, m, cand, i + 1, i);
    } else {
        lemma_fmi_from_props(pool, m, cand, i + 1, best);
    }
}

/// The first-max position is in range and carries the maximum value.
pub proof fn lemma_first_max_props(pool: Seq<ProjectRecord>, m: Metric, cand: Seq<usize>)
    requires
        cand.len() > 0,
    ensures
        0 <= spec_first_max(pool, m, cand) < cand.len(),
        spec_first_max(pool, m, cand) == spec_fmi_from(pool, m, cand, 1, 0),
        forall|j: int|
            0 <= j < cand.len() ==> spec_value(pool, m, cand[spec_first_max(pool, m, cand)])
                >= spec_value(pool, m, #[trigger] cand[j]),
{
    lemma_fmi_from_props(pool, m, cand, 1, 0);
}

/// What descending sorting guarantees: the sorted candidates are a
/// permutation of the input, in weakly decreasing metric order.
pub proof fn lemma_sort_desc_props(pool: Seq<ProjectRecord>, m: Metric, cand: Seq<usize>)
    ensures
        spec_sort_desc(pool, m, cand).len() == cand.len(),
        forall|k: int|
            0 <= k < cand.len() ==> cand.contains(#[trigger] spec_sort_desc(pool, m, cand)[k]),
        forall|k1: int, k2: int|
            0 <= k1 < k2 < cand.len() ==> spec_value(pool, m, spec_sort_desc(pool, m, cand)[k1])
                >= spec_value(pool, m, spec_sort_desc(pool, m, cand)[k2]),
        spec_sort_desc(pool, m, cand).to_multiset() == cand.to_multiset(),
    decreases cand.len(),
{
    broadcast use vstd::seq_lib::group_seq_properties;
    broadcast use vstd::seq_lib::lemma_multiset_commutative;
    broadcast use vstd::multiset::group_multiset_axioms;

    let out = spec_sort_desc(pool, m, cand);
    if cand.len() == 0 {
        assert(out.to_multiset() =~= cand.to_multiset()) by {
            cand.to_multiset_ensures();
            out.to_multiset_ensures();
        }
    } else {
        lemma_first_max_props(pool, m, cand);
        let i = spec_first_max(pool, m, cand);
        let rest = cand.remove(i);
        lemma_sort_desc_props(pool, m, rest);
        let sorted_rest = spec_sort_desc(pool, m, rest);
        assert(out == seq![cand[i]] + sorted_rest);
        assert forall|x: usize| rest.contains(x) implies cand.contains(x) by {
            let j = choose|j: int| 0 <= j < rest.len() && rest[j] == x;
            if j < i {
                assert(cand[j] == x);
            } else {
                assert(cand[j + 1] == x);
            }
        }
        assert forall|k: int| 0 <= k < cand.len() implies cand.contains(#[trigger] out[k]) by {
            if k == 0 {
                assert(out[0] == cand[i]);
            } else {
                assert(out[k] == sorted_rest[k - 1]);
                assert(rest.contains(sorted_rest[k - 1]));
            }
        }
        assert forall|k1: int, k2: int|
            0 <= k1 < k2 < cand.len() implies spec_value(pool, m, out[k1]) >= spec_value(
            pool,
            m,
            out[k2],
        ) by {
            if k1 == 0 {
                assert(out[k2] == sorted_rest[k2 - 1]);
                assert(rest.contains(sorted_rest[k2 - 1]));
                let x = sorted_rest[k2 - 1];
                let j = choose|j: int| 0 <= j < cand.len() && cand[j] == x;
                assert(spec_value(pool, m, cand[i]) >= spec_value(pool, m, cand[j]));
            } else {
                assert(out[k1] == sorted_rest[k1 - 1]);
                assert(out[k2] == sorted_rest[k2 - 1]);
            }
        }
        assert(out.to_multiset() =~= cand.to_multiset()) by {
            cand.to_multiset_ensures();
            rest.to_multiset_ensures();
            seq![cand[i]].to_multiset_ensures();
            assert(seq![cand[i]] =~= Seq::<usize>::empty().push(cand[i]));
            Seq::<usize>::empty().to_multiset_ensures();
            assert(seq![cand[i]].to_multiset() =~= Multiset::<usize>::empty().insert(cand[i]));
            assert(out.to_multiset() =~= seq![cand[i]].to_multiset().add(sorted_rest.to_multiset()));
            assert(rest.to_multiset() =~= cand.to_multiset().remove(cand[i]));
            assert(cand.to_multiset().count(cand[i]) > 0);
            assert(out.to_multiset() =~= Multiset::<usize>::empty().insert(cand[i]).add(
                cand.to_multiset().remove(cand[i]),
            ));
        }
    }
}

fn first_max_index(pool: &Vec<ProjectRecord>, m: Metric, cand: &Vec<usize>) -> (r: usize)
    requires
        cand@.len() > 0,
        forall|k: int| 0 <= k < cand@.len() ==> (#[trigger] cand@[k]) < pool@.len(),
    ensures
        r as int == spec_first_max(pool@, m, cand@),
{
    let mut best: usize = 0;
    let mut i: usize = 1;
    while i < cand.len()
        invariant
            0 <= best < i <= cand@.len(),
            forall|k: int| 0 <= k < cand@.len() ==> (#[trigger] cand@[k]) < pool@.len(),
            spec_fmi_from(pool@, m, cand@, i as int, best as int) == spec_fmi_from(
                pool@,
                m,
                cand@,
                1,
                0,
            ),
        decreases cand@.len() - i,
    {
        if metric_value(&pool[cand[i]], m) > metric_value(&pool[cand[best]], m) {
            best = i;
        }
        i += 1;
    }
    proof {
        lemma_first_max_props(pool@, m, cand@);
    }
    best
}

/// Deterministic top-K: the first `k` candidate positions in descending
/// order of metric value, ties broken stably by store order. For a pool
/// of at most `k` candidates the result is the whole pool, sorted.
pub fn top_k(pool: &Vec<ProjectRecord>, cand: Vec<usize>, m: Metric, k: usize) -> (r: Vec<usize>)
    requires
        forall|j: int| 0 <= j < cand@.len() ==> (#[trigger] cand@[j]) < pool@.len(),
    ensures
        r@ == spec_top_k(pool@, m, cand@, k as nat),
        r@.len() == vstd::math::min(k as int, cand@.len() as int),
        forall|j: int|
            0 <= j < r@.len() ==> (#[trigger] r@[j]) < pool@.len() && cand@.contains(r@[j]),
        forall|k1: int, k2: int|
            0 <= k1 < k2 < r@.len() ==> spec_value(pool@, m, r@[k1]) >= spec_value(
                pool@,
                m,
                r@[k2],
            ),
        cand@.len() <= k ==> r@ == spec_sort_desc(pool@, m, cand@),
{
    let ghost all = cand@;
    let mut rest = cand;
    let mut out: Vec<usize> = Vec::new();
    while out.len() < k && rest.len() > 0
        invariant
            out@.len() <= k,
            out@.len() + rest@.len() == all.len(),
            forall|j: int| 0 <= j < rest@.len() ==> (#[trigger] rest@[j]) < pool@.len(),
            forall|j: int| 0 <= j < out@.len() ==> (#[trigger] out@[j]) < pool@.len(),
            spec_sort_desc(pool@, m, all) == out@ + spec_sort_desc(pool@, m, rest@),
        decreases rest@.len(),
    {
        let ghost prev_rest = rest@;
        let i = first_max_index(pool, m, &rest);
        proof {
            lemma_first_max_props(pool@, m, prev_rest);
        }
        let ci = rest.remove(i);
        out.push(ci);
        proof {
            assert(spec_sort_desc(pool@, m, prev_rest) == seq![prev_rest[i as int]]
                + spec_sort_desc(pool@, m, rest@));
            assert(out@ + spec_sort_desc(pool@, m, rest@) == spec_sort_desc(pool@, m, all));
        }
    }
    proof {
        lemma_sort_desc_props(pool@, m, all);
        let sorted = spec_sort_desc(pool@, m, all);
        if out@.len() == k {
            assert(out@ =~= sorted.take(k as int));
        } else {
            assert(rest@.len() == 0);
            assert(spec_sort_desc(pool@, m, rest@) == Seq::<usize>::empty());
            assert(out@ =~= sorted);
            assert(out@ =~= sorted.take(vstd::math::min(k as int, all.len() as int)));
        }
        assert forall|j: int|
            0 <= j < out@.len() implies (#[trigger] out@[j]) < pool@.len() && all.contains(
            out@[j],
        ) by {
            assert(out@[j] == sorted[j]);
        }
    }
    out
}

} // verus!

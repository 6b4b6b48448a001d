use vstd::prelude::*;
use crate::config::{GenerationConfig, MAX_FILTERED_ABS, MAX_VOCAB};
use crate::rng::{rng_advance, rng_output, SamplerState};

verus! {

/// Weight of the most likely token; every weight lies in `[0, WEIGHT_ONE]`.
pub const WEIGHT_ONE: u64 = 0x1_0000_0000;

/// Index of the greatest logit among the first `k`, the lowest index on ties.
pub open spec fn argmax_prefix(l: Seq<i64>, k: int) -> int
    decreases k,
{
    if k <= 1 {
        0
    } else if l[k - 1] > l[argmax_prefix(l, k - 1)] {
        k - 1
    } else {
        argmax_prefix(l, k - 1)
    }
}

/// Index of the greatest logit, the lowest index on ties.
pub open spec fn argmax(l: Seq<i64>) -> int {
    argmax_prefix(l, l.len() as int)
}

pub proof fn lemma_argmax_prefix_max(l: Seq<i64>, k: int)
    requires
        1 <= k <= l.len(),
    ensures
        0 <= argmax_prefix(l, k) < k,
        forall|j: int| 0 <= j < k ==> #[trigger] l[j] <= l[argmax_prefix(l, k)],
        forall|j: int| 0 <= j < argmax_prefix(l, k) ==> #[trigger] l[j] < l[argmax_prefix(l, k)],
    decreases k,
{
    if k > 1 {
        lemma_argmax_prefix_max(l, k - 1);
    }
}

/// The greedy choice is the arg-max: no logit exceeds it, and every logit
/// before it is strictly below it.
pub proof fn lemma_argmax_is_max(l: Seq<i64>)
    requires
        l.len() >= 1,
    ensures
        0 <= argmax(l) < l.len(),
        forall|j: int| 0 <= j < l.len() ==> #[trigger] l[j] <= l[argmax(l)],
        forall|j: int| 0 <= j < argmax(l) ==> #[trigger] l[j] < l[argmax(l)],
{
    lemma_argmax_prefix_max(l, l.len() as int);
}

/// Greedy decoding: the index of the maximum logit, ties broken by the
/// lowest index, independent of any seed.
pub fn greedy_argmax(logits: &Vec<i64>) -> (r: usize)
    requires
        logits@.len() >= 1,
    ensures
        r as int == argmax(logits@),
        r < logits@.len(),
{
    let mut best: usize = 0;
    let mut i: usize = 1;
    while i < logits.len()
        invariant
            1 <= i <= logits@.len(),
            best as int == argmax_prefix(logits@, i as int),
            best < i,
        decreases logits@.len() - i,
    {
        if logits[i] > logits[best] {
            best = i;
        }
        i += 1;
    }
    proof {
        lemma_argmax_prefix_max(logits@, logits@.len() as int);
    }
    best
}

/// The fixed-point distance of a logit below the maximum, scaled by the
/// temperature, in thousandths.
pub open spec fn gap_spec(l: Seq<i64>, i: int, t: u64) -> int {
    ((l[argmax(l)] - l[i]) * 1000) / (t as int)
}

/// The sampling weight of a token whose scaled gap below the maximum is `d`
/// thousandths: a base-2 exponential decay, one weight halving per unit gap,
/// interpolated linearly between halvings.
pub open spec fn weight_from_gap(d: int) -> int {
    let k = d / 1000;
    let f = d % 1000;
    if k >= 32 {
        0
    } else {
        (((WEIGHT_ONE >> (k as u64)) as int) * (2000 - f)) / 2000
    }
}

/// The weight vector of a logit vector under temperature `t` thousandths.
pub open spec fn weights_spec(l: Seq<i64>, t: u64) -> Seq<u64> {
    Seq::new(l.len(), |i: int| weight_from_gap(gap_spec(l, i, t)) as u64)
}

/// Sum of the first `k` weights.
pub open spec fn prefix_sum(w: Seq<u64>, k: int) -> int
    decreases k,
{
    if k <= 0 {
        0
    } else {
        prefix_sum(w, k - 1) + w[k - 1]
    }
}

pub proof fn lemma_prefix_sum_nonneg(w: Seq<u64>, k: int)
    requires
        k <= w.len(),
    ensures
        prefix_sum(w, k) >= 0,
    decreases k,
{
    if k > 0 {
        lemma_prefix_sum_nonneg(w, k - 1);
    }
}

pub proof fn lemma_element_le_prefix_sum(w: Seq<u64>, i: int, k: int)
    requires
        0 <= i < k <= w.len(),
    ensures
        w[i] <= prefix_sum(w, k),
    decreases k,
{
    if i == k - 1 {
        lemma_prefix_sum_nonneg(w, k - 1);
    } else {
        lemma_element_le_prefix_sum(w, i, k - 1);
    }
}

/// The index whose cumulative weight range contains `r`, scanning from `i`:
/// the categorical draw.
pub open spec fn pick_loop(w: Seq<u64>, r: int, i: int) -> int
    decreases w.len() - i,
{
    if i + 1 >= w.len() {
        w.len() - 1
    } else if r < w[i] {
        i
    } else {
        pick_loop(w, r - w[i], i + 1)
    }
}

pub proof fn lemma_pick_loop_in_range(w: Seq<u64>, r: int, i: int)
    requires
        0 <= i < w.len(),
    ensures
        i <= pick_loop(w, r, i) < w.len(),
    decreases w.len() - i,
{
    if !(i + 1 >= w.len()) && !(r < w[i]) {
        lemma_pick_loop_in_range(w, r - w[i], i + 1);
    }
}

/// How many of the sorted weights the nucleus keeps: the smallest prefix
/// whose cumulative weight reaches the fraction `p` thousandths of `total`,
/// or all of them if none does. `acc` is the cumulative weight before `k`.
pub open spec fn nucleus_count(sw: Seq<u64>, p: int, total: int, k: int, acc: int) -> int
    decreases sw.len() - k,
{
    if k >= sw.len() {
        sw.len() as int
    } else if (acc + sw[k]) * 1000 >= total * p {
        k + 1
    } else {
        nucleus_count(sw, p, total, k + 1, acc + sw[k])
    }
}

pub proof fn lemma_nucleus_count(sw: Seq<u64>, p: int, total: int, k: int)
    requires
        0 <= k <= sw.len(),
        prefix_sum(sw, k) >= 0,
        total >= 1,
        p >= 1,
        total == prefix_sum(sw, sw.len() as int) || prefix_sum(sw, sw.len() as int) >= 1,
    ensures
        ({
            let kk = nucleus_count(sw, p, total, k, prefix_sum(sw, k));
            &&& k <= kk <= sw.len()
            &&& (k < sw.len() ==> k < kk)
            &&& (total == prefix_sum(sw, sw.len() as int) ==> prefix_sum(sw, kk) >= 1)
            &&& (prefix_sum(sw, sw.len() as int) >= 1 && k < sw.len() ==> prefix_sum(sw, kk) >= 1)
        }),
    decreases sw.len() - k,
{
    if k >= sw.len() {
    } else {
        let acc = prefix_sum(sw, k);
        if (acc + sw[k as int]) * 1000 >= total * p {
            assert(prefix_sum(sw, k + 1) == acc + sw[k as int]);
            assert(total * p >= 1) by (nonlinear_arith)
                requires
                    total >= 1,
                    p >= 1,
            ;
            assert(prefix_sum(sw, k + 1) >= 1);
        } else {
            assert(prefix_sum(sw, k + 1) == acc + sw[k as int]);
            lemma_nucleus_count(sw, p, total, k + 1);
        }
    }
}

/// Insertion of index `i` into a weight-sorted index sequence: `i` goes
/// after every index of weight at least its own, so ties keep the lower
/// index first.
pub open spec fn insert_idx(s: Seq<usize>, w: Seq<u64>, i: usize) -> Seq<usize>
    decreases s.len(),
{
    if s.len() == 0 {
        seq![i]
    } else if w[s[0] as int] < w[i as int] {
        seq![i] + s
    } else {
        seq![s[0]] + insert_idx(s.skip(1), w, i)
    }
}

/// The indices `0..n` sorted by descending weight, stable in index order.
pub open spec fn sort_indices(w: Seq<u64>, n: int) -> Seq<usize>
    decreases n,
{
    if n <= 0 {
        Seq::empty()
    } else {
        insert_idx(sort_indices(w, n - 1), w, (n - 1) as usize)
    }
}

pub proof fn lemma_insert_idx_facts(s: Seq<usize>, w: Seq<u64>, i: usize, bound: int)
    requires
        forall|j: int| 0 <= j < s.len() ==> (s[j] as int) < bound,
        (i as int) < bound,
    ensures
        insert_idx(s, w, i).len() == s.len() + 1,
        forall|j: int|
            0 <= j < insert_idx(s, w, i).len() ==> (#[trigger] insert_idx(s, w, i)[j] as int)
                < bound,
    decreases s.len(),
{
    if s.len() == 0 {
    } else if w[s[0] as int] < w[i as int] {
    } else {
        assert(forall|j: int| 0 <= j < s.skip(1).len() ==> (#[trigger] s.skip(1)[j] as int) < bound);
        lemma_insert_idx_facts(s.skip(1), w, i, bound);
    }
}

pub proof fn lemma_sort_indices_facts(w: Seq<u64>, n: int)
    requires
        0 <= n,
    ensures
        sort_indices(w, n).len() == n,
        forall|j: int| 0 <= j < n ==> (#[trigger] sort_indices(w, n)[j] as int) < n,
    decreases n,
{
    if n > 0 {
        lemma_sort_indices_facts(w, n - 1);
        lemma_insert_idx_facts(sort_indices(w, n - 1), w, (n - 1) as usize, n);
    }
}

proof fn lemma_insert_idx_contains(s: Seq<usize>, w: Seq<u64>, i: usize, x: usize)
    requires
        s.contains(x) || x == i,
    ensures
        insert_idx(s, w, i).contains(x),
    decreases s.len(),
{
    let r = insert_idx(s, w, i);
    if s.len() == 0 {
        assert(r[0] == i);
    } else if w[s[0] as int] < w[i as int] {
        if x == i {
            assert(r[0] == x);
        } else {
            let k = choose|k: int| 0 <= k < s.len() && s[k] == x;
            assert(r[k + 1] == x);
        }
    } else {
        if x == s[0] {
            assert(r[0] == x);
        } else {
            if s.contains(x) {
                let k = choose|k: int| 0 <= k < s.len() && s[k] == x;
                assert(s.skip(1)[k - 1] == x);
            }
            lemma_insert_idx_contains(s.skip(1), w, i, x);
            let rr = insert_idx(s.skip(1), w, i);
            let k2 = choose|k2: int| 0 <= k2 < rr.len() && rr[k2] == x;
            assert(r[k2 + 1] == x);
        }
    }
}

/// Every index below `n` occurs somewhere in the sorted order.
proof fn lemma_sort_indices_contains(w: Seq<u64>, n: int, x: usize)
    requires
        0 <= (x as int) < n,
    ensures
        sort_indices(w, n).contains(x),
    decreases n,
{
    if (x as int) == n - 1 {
        lemma_insert_idx_contains(sort_indices(w, n - 1), w, (n - 1) as usize, x);
    } else {
        lemma_sort_indices_contains(w, n - 1, x);
        lemma_insert_idx_contains(sort_indices(w, n - 1), w, (n - 1) as usize, x);
    }
}

/// An index order sorted by descending weight.
pub open spec fn sorted_by_weight_desc(s: Seq<usize>, w: Seq<u64>) -> bool {
    forall|a: int, b: int|
        0 <= a < b < s.len() ==> w[#[trigger] s[a] as int] >= w[#[trigger] s[b] as int]
}

proof fn lemma_insert_idx_elements(s: Seq<usize>, w: Seq<u64>, i: usize)
    ensures
        forall|j: int|
            0 <= j < insert_idx(s, w, i).len() ==> (#[trigger] insert_idx(s, w, i)[j]) == i
                || s.contains(insert_idx(s, w, i)[j]),
    decreases s.len(),
{
    let r = insert_idx(s, w, i);
    if s.len() == 0 {
    } else if w[s[0] as int] < w[i as int] {
        assert forall|j: int| 0 <= j < r.len() implies (#[trigger] r[j]) == i || s.contains(
            r[j],
        ) by {
            if j >= 1 {
                assert(s[j - 1] == r[j]);
            }
        }
    } else {
        lemma_insert_idx_elements(s.skip(1), w, i);
        let rr = insert_idx(s.skip(1), w, i);
        assert forall|j: int| 0 <= j < r.len() implies (#[trigger] r[j]) == i || s.contains(
            r[j],
        ) by {
            if j == 0 {
                assert(s[0] == r[0]);
            } else {
                assert(r[j] == rr[j - 1]);
                if rr[j - 1] != i {
                    let k = choose|k: int| 0 <= k < s.skip(1).len() && s.skip(1)[k] == rr[j - 1];
                    assert(s[k + 1] == rr[j - 1]);
                }
            }
        }
    }
}

proof fn lemma_insert_idx_sorted(s: Seq<usize>, w: Seq<u64>, i: usize)
    requires
        sorted_by_weight_desc(s, w),
    ensures
        sorted_by_weight_desc(insert_idx(s, w, i), w),
    decreases s.len(),
{
    let r = insert_idx(s, w, i);
    if s.len() == 0 {
    } else if w[s[0] as int] < w[i as int] {
        assert forall|a: int, b: int| 0 <= a < b < r.len() implies w[#[trigger] r[a] as int]
            >= w[#[trigger] r[b] as int] by {
            if a == 0 {
                assert(r[b] == s[b - 1]);
                if b - 1 > 0 {
                    assert(w[s[0] as int] >= w[s[b - 1] as int]);
                }
            } else {
                assert(r[a] == s[a - 1] && r[b] == s[b - 1]);
            }
        }
    } else {
        assert(sorted_by_weight_desc(s.skip(1), w)) by {
            assert(forall|k: int| 0 <= k < s.skip(1).len() ==> #[trigger] s.skip(1)[k] == s[k + 1]);
        }
        lemma_insert_idx_sorted(s.skip(1), w, i);
        lemma_insert_idx_elements(s.skip(1), w, i);
        let rr = insert_idx(s.skip(1), w, i);
        assert forall|a: int, b: int| 0 <= a < b < r.len() implies w[#[trigger] r[a] as int]
            >= w[#[trigger] r[b] as int] by {
            if a == 0 {
                assert(r[b] == rr[b - 1]);
                if rr[b - 1] == i {
                    assert(w[s[0] as int] >= w[i as int]);
                } else {
                    let k = choose|k: int| 0 <= k < s.skip(1).len() && s.skip(1)[k] == rr[b - 1];
                    assert(s.skip(1)[k] == s[k + 1]);
                    assert(w[s[0] as int] >= w[s[k + 1] as int]);
                }
            } else {
                assert(r[a] == rr[a - 1] && r[b] == rr[b - 1]);
            }
        }
    }
}

proof fn lemma_sort_indices_sorted(w: Seq<u64>, n: int)
    requires
        0 <= n,
    ensures
        sorted_by_weight_desc(sort_indices(w, n), w),
    decreases n,
{
    if n > 0 {
        lemma_sort_indices_sorted(w, n - 1);
        lemma_insert_idx_sorted(sort_indices(w, n - 1), w, (n - 1) as usize);
    }
}

/// Inserting at the first position whose weight is strictly below `w[i]`
/// is what `insert_idx` does.
proof fn lemma_insert_idx_at(s: Seq<usize>, w: Seq<u64>, i: usize, pos: int)
    requires
        0 <= pos <= s.len(),
        forall|j: int| 0 <= j < pos ==> w[#[trigger] s[j] as int] >= w[i as int],
        pos < s.len() ==> w[s[pos] as int] < w[i as int],
    ensures
        insert_idx(s, w, i) == s.insert(pos, i),
    decreases s.len(),
{
    if s.len() == 0 {
        assert(insert_idx(s, w, i) =~= s.insert(0, i));
    } else if pos == 0 {
        assert(w[s[0] as int] < w[i as int]);
        assert(seq![i] + s =~= s.insert(0, i));
    } else {
        assert(w[s[0] as int] >= w[i as int]);
        assert(forall|j: int|
            0 <= j < pos - 1 ==> w[#[trigger] s.skip(1)[j] as int] >= w[i as int]);
        lemma_insert_idx_at(s.skip(1), w, i, pos - 1);
        assert(seq![s[0]] + s.skip(1).insert(pos - 1, i) =~= s.insert(pos, i));
    }
}

fn sort_by_weight(w: &Vec<u64>) -> (order: Vec<usize>)
    ensures
        order@ == sort_indices(w@, w@.len() as int),
        order@.len() == w@.len(),
        forall|j: int| 0 <= j < order@.len() ==> (#[trigger] order@[j] as int) < w@.len(),
        sorted_by_weight_desc(order@, w@),
{
    proof {
        lemma_sort_indices_sorted(w@, w@.len() as int);
    }
    let mut order: Vec<usize> = Vec::new();
    let mut i: usize = 0;
    proof {
        lemma_sort_indices_facts(w@, 0);
    }
    while i < w.len()
        invariant
            i <= w@.len(),
            order@ == sort_indices(w@, i as int),
            order@.len() == i,
            forall|j: int| 0 <= j < order@.len() ==> (#[trigger] order@[j] as int) < i,
        decreases w@.len() - i,
    {
        let mut pos: usize = 0;
        while pos < order.len() && w[order[pos]] >= w[i]
            invariant
                pos <= order@.len(),
                order@.len() == i,
                i < w@.len(),
                forall|j: int| 0 <= j < order@.len() ==> (#[trigger] order@[j] as int) < i,
                forall|j: int| 0 <= j < pos ==> w@[#[trigger] order@[j] as int] >= w@[i as int],
            decreases order@.len() - pos,
        {
            pos += 1;
        }
        let ghost before = order@;
        order.insert(pos, i);
        proof {
            lemma_insert_idx_at(before, w@, i, pos as int);
            assert(order@ == sort_indices(w@, i + 1));
        }
        i += 1;
    }
    order
}

/// The generator state after one sampling call: greedy decoding draws
/// nothing, every other mode consumes exactly one draw.
pub open spec fn sample_rng_after(cfg: GenerationConfig, s: u64) -> u64 {
    if cfg.temperature_milli == 0 {
        s
    } else {
        rng_advance(s)
    }
}

/// The token index `sample` chooses for a logit vector, a configuration and
/// a generator state: the arg-max when the temperature is zero; otherwise a
/// categorical draw over the fixed-point weights, restricted to the smallest
/// weight-sorted prefix reaching the nucleus fraction when one is set.
pub open spec fn sample_spec(l: Seq<i64>, cfg: GenerationConfig, s: u64) -> int {
    if cfg.temperature_milli == 0 {
        argmax(l)
    } else {
        let w = weights_spec(l, cfg.temperature_milli);
        let draw = rng_output(rng_advance(s)) as int;
        let total = prefix_sum(w, w.len() as int);
        match cfg.top_p_milli {
            None => pick_loop(w, draw % total, 0),
            Some(p) => {
                let order = sort_indices(w, l.len() as int);
                let sw = Seq::new(order.len(), |j: int| w[order[j] as int]);
                let kk = nucleus_count(sw, p as int, total, 0, 0);
                let cum = prefix_sum(sw, kk);
                let j = pick_loop(sw, draw % cum, 0);
                order[j] as int
            },
        }
    }
}

fn weight_of_gap(d: u64) -> (r: u64)
    ensures
        r as int == weight_from_gap(d as int),
        r <= WEIGHT_ONE,
{
    let k: u64 = d / 1000;
    let f: u64 = d % 1000;
    if k >= 32 {
        0
    } else {
        let sh: u64 = WEIGHT_ONE >> k;
        proof {
            assert(0x1_0000_0000u64 >> k <= 0x1_0000_0000u64) by (bit_vector)
                requires
                    k < 32u64,
            ;
            assert(WEIGHT_ONE == 0x1_0000_0000u64);
            assert(sh * (2000 - f) <= WEIGHT_ONE * 2000) by (nonlinear_arith)
                requires
                    sh <= WEIGHT_ONE,
                    f < 1000,
                    0 <= sh,
            ;
        }
        let r: u64 = (sh * (2000 - f)) / 2000;
        proof {
            assert(r <= sh) by (nonlinear_arith)
                requires
                    r == sh * (2000 - f) / 2000,
                    0 <= sh,
                    0 < 2000 - f <= 2000,
            ;
        }
        r
    }
}

fn compute_weights(logits: &Vec<i64>, t: u64) -> (w: Vec<u64>)
    requires
        1 <= logits@.len() <= MAX_VOCAB,
        t >= 1,
        forall|i: int|
            0 <= i < logits@.len() ==> -MAX_FILTERED_ABS <= #[trigger] logits@[i] <= MAX_FILTERED_ABS,
    ensures
        w@ == weights_spec(logits@, t),
        w@.len() == logits@.len(),
        forall|j: int| 0 <= j < w@.len() ==> #[trigger] w@[j] <= WEIGHT_ONE,
        w@[argmax(logits@)] == WEIGHT_ONE,
{
    let best = greedy_argmax(logits);
    let m = logits[best];
    proof {
        lemma_argmax_is_max(logits@);
    }
    let mut w: Vec<u64> = Vec::new();
    let mut i: usize = 0;
    while i < logits.len()
        invariant
            i <= logits@.len(),
            logits@.len() >= 1,
            t >= 1,
            best as int == argmax(logits@),
            best < logits@.len(),
            m == logits@[best as int],
            forall|j: int|
                0 <= j < logits@.len() ==> -MAX_FILTERED_ABS <= #[trigger] logits@[j]
                    <= MAX_FILTERED_ABS,
            forall|j: int| 0 <= j < logits@.len() ==> #[trigger] logits@[j] <= m,
            w@.len() == i,
            forall|j: int| 0 <= j < i ==> #[trigger] w@[j] <= WEIGHT_ONE,
            forall|j: int|
                0 <= j < i ==> #[trigger] w@[j] as int == weight_from_gap(gap_spec(logits@, j, t)),
        decreases logits@.len() - i,
    {
        let diff: i64 = m - logits[i];
        let num: u64 = (diff as u64) * 1000;
        let d: u64 = num / t;
        proof {
            assert(num == (m - logits@[i as int]) * 1000);
            assert(d as int == gap_spec(logits@, i as int, t));
        }
        let wi = weight_of_gap(d);
        w.push(wi);
        i += 1;
    }
    proof {
        assert(w@ =~= weights_spec(logits@, t));
        let a = argmax(logits@);
        assert(gap_spec(logits@, a, t) == 0) by {
            assert((logits@[a] - logits@[a]) * 1000 == 0);
        }
        assert(weight_from_gap(0) == WEIGHT_ONE) by {
            assert(0x1_0000_0000u64 >> 0u64 == 0x1_0000_0000u64) by (bit_vector);
            assert(WEIGHT_ONE == 0x1_0000_0000u64);
            assert((0x1_0000_0000 * 2000) / 2000 == 0x1_0000_0000);
        }
    }
    w
}

fn sum_weights(w: &Vec<u64>) -> (total: u64)
    requires
        w@.len() <= MAX_VOCAB,
        forall|j: int| 0 <= j < w@.len() ==> #[trigger] w@[j] <= WEIGHT_ONE,
    ensures
        total as int == prefix_sum(w@, w@.len() as int),
{
    let mut total: u64 = 0;
    let mut i: usize = 0;
    while i < w.len()
        invariant
            i <= w@.len(),
            w@.len() <= MAX_VOCAB,
            forall|j: int| 0 <= j < w@.len() ==> #[trigger] w@[j] <= WEIGHT_ONE,
            total as int == prefix_sum(w@, i as int),
            total as int <= (i as int) * (WEIGHT_ONE as int),
        decreases w@.len() - i,
    {
        proof {
            assert((i as int) * (WEIGHT_ONE as int) + WEIGHT_ONE == (i as int + 1) * (
            WEIGHT_ONE as int)) by (nonlinear_arith);
            assert((i as int + 1) * (WEIGHT_ONE as int) <= (MAX_VOCAB as int) * (WEIGHT_ONE as int))
                by (nonlinear_arith)
                requires
                    i as int + 1 <= MAX_VOCAB as int,
            ;
        }
        total = total + w[i];
        i += 1;
    }
    total
}

fn pick_weighted(w: &Vec<u64>, r: u64) -> (idx: usize)
    requires
        w@.len() >= 1,
    ensures
        idx as int == pick_loop(w@, r as int, 0),
        idx < w@.len(),
{
    let n = w.len();
    let mut idx: usize = 0;
    let mut rem: u64 = r;
    loop
        invariant
            n == w@.len(),
            n >= 1,
            0 <= idx < n,
            pick_loop(w@, r as int, 0) == pick_loop(w@, rem as int, idx as int),
        decreases w@.len() - idx,
    {
        if idx + 1 >= n {
            proof {
                assert(pick_loop(w@, rem as int, idx as int) == w@.len() - 1);
            }
            return n - 1;
        }
        if rem < w[idx] {
            return idx;
        }
        rem = rem - w[idx];
        idx += 1;
    }
}

/// Chooses a token index from a logit vector: the Sampler's whole policy.
/// The result and the updated generator state are exact functions of
/// `(logits, config, old generator state)`, which is what makes generation
/// reproducible.
pub fn sample(logits: &Vec<i64>, config: &GenerationConfig, rng: &mut SamplerState) -> (r: u32)
    requires
        config.valid(),
        1 <= logits@.len() <= MAX_VOCAB,
        forall|i: int|
            0 <= i < logits@.len() ==> -MAX_FILTERED_ABS <= #[trigger] logits@[i] <= MAX_FILTERED_ABS,
    ensures
        r as int == sample_spec(logits@, *config, old(rng).state),
        final(rng).state == sample_rng_after(*config, old(rng).state),
        (r as int) < logits@.len(),
{
    if config.temperature_milli == 0 {
        let best = greedy_argmax(logits);
        return best as u32;
    }
    let w = compute_weights(logits, config.temperature_milli);
    let total = sum_weights(&w);
    proof {
        lemma_argmax_is_max(logits@);
        lemma_element_le_prefix_sum(w@, argmax(logits@), w@.len() as int);
        assert(total >= WEIGHT_ONE);
    }
    let draw = rng.next_u64();
    match config.top_p_milli {
        None => {
            let r = draw % total;
            let idx = pick_weighted(&w, r);
            idx as u32
        },
        Some(p) => {
            let order = sort_by_weight(&w);
            let mut sw: Vec<u64> = Vec::new();
            let mut j: usize = 0;
            while j < order.len()
                invariant
                    j <= order@.len(),
                    order@.len() == w@.len(),
                    forall|t: int| 0 <= t < order@.len() ==> (#[trigger] order@[t] as int) < w@.len(),
                    sw@.len() == j,
                    forall|t: int| 0 <= t < j ==> #[trigger] sw@[t] == w@[order@[t] as int],
                decreases order@.len() - j,
            {
                sw.push(w[order[j]]);
                j += 1;
            }
            proof {
                assert(sw@ =~= Seq::new(order@.len(), |t: int| w@[order@[t] as int]));
            }
            let ghost gp = p as int;
            let ghost gtotal = total as int;
            let mut kk: usize = 0;
            let mut acc: u64 = 0;
            let mut reached = false;
            proof {
                assert((total as int) * (p as int) <= 0xffff_ffff_ffff_ffff * 1000)
                    by (nonlinear_arith)
                    requires
                        0 <= total as int <= 0xffff_ffff_ffff_ffff,
                        0 <= p as int <= 1000,
                ;
            }
            let need: u128 = (total as u128) * (p as u128);
            proof {
                assert(forall|t: int| 0 <= t < sw@.len() ==> #[trigger] sw@[t] <= WEIGHT_ONE);
            }
            while kk < sw.len() && !reached
                invariant
                    0 <= kk <= sw@.len(),
                    sw@.len() == w@.len(),
                    1 <= sw@.len() <= MAX_VOCAB,
                    forall|t: int| 0 <= t < sw@.len() ==> #[trigger] sw@[t] <= WEIGHT_ONE,
                    acc as int == prefix_sum(sw@, kk as int),
                    acc as int <= (kk as int) * (WEIGHT_ONE as int),
                    need == gtotal * gp,
                    !reached ==> nucleus_count(sw@, gp, gtotal, 0, 0) == nucleus_count(
                        sw@,
                        gp,
                        gtotal,
                        kk as int,
                        acc as int,
                    ),
                    reached ==> kk as int == nucleus_count(sw@, gp, gtotal, 0, 0),
                decreases sw@.len() - kk,
            {
                proof {
                    assert((kk as int) * (WEIGHT_ONE as int) + WEIGHT_ONE == (kk as int + 1) * (
                    WEIGHT_ONE as int)) by (nonlinear_arith);
                    assert((kk as int + 1) * (WEIGHT_ONE as int) <= (MAX_VOCAB as int) * (
                    WEIGHT_ONE as int)) by (nonlinear_arith)
                        requires
                            kk as int + 1 <= MAX_VOCAB as int,
                    ;
                }
                let ghost old_kk = kk as int;
                let ghost old_acc = acc as int;
                let acc2: u64 = acc + sw[kk];
                if (acc2 as u128) * 1000 >= need {
                    reached = true;
                }
                acc = acc2;
                kk = kk + 1;
                proof {
                    assert(nucleus_count(sw@, gp, gtotal, old_kk, old_acc) == (if (old_acc
                        + sw@[old_kk]) * 1000 >= gtotal * gp {
                        old_kk + 1
                    } else {
                        nucleus_count(sw@, gp, gtotal, old_kk + 1, old_acc + sw@[old_kk])
                    }));
                }
            }
            proof {
                if !reached {
                    assert(kk as int == sw@.len());
                    assert(nucleus_count(sw@, gp, gtotal, kk as int, acc as int) == sw@.len());
                }
                assert(kk as int == nucleus_count(sw@, gp, gtotal, 0, 0));
                let am = argmax(logits@);
                lemma_sort_indices_contains(w@, w@.len() as int, am as usize);
                let aj = choose|aj: int| 0 <= aj < order@.len() && order@[aj] == am as usize;
                assert(sw@[aj] == WEIGHT_ONE);
                lemma_element_le_prefix_sum(sw@, aj, sw@.len() as int);
                lemma_nucleus_count(sw@, gp, gtotal, 0);
                assert(acc as int == prefix_sum(sw@, kk as int));
                assert(acc >= 1);
            }
            let r = draw % acc;
            let jdx = pick_weighted(&sw, r);
            proof {
                lemma_pick_loop_in_range(sw@, r as int, 0);
            }
            let chosen = order[jdx];
            chosen as u32
        },
    }
}

} // verus!

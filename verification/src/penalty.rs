use vstd::prelude::*;
use crate::config::{MAX_FILTERED_ABS, MAX_LOGIT_ABS, MAX_PENALTY_MILLI, MAX_VOCAB};

verus! {

/// The last `n` elements of a token sequence: the penalty window. It looks
/// only backward over what a turn has already emitted.
pub open spec fn last_n(s: Seq<u32>, n: nat) -> Seq<u32> {
    if s.len() <= n {
        s
    } else {
        s.skip(s.len() - n)
    }
}

/// Whether token id `id` occurs in the window.
pub open spec fn in_window(w: Seq<u32>, id: int) -> bool {
    exists|k: int| 0 <= k < w.len() && w[k] == id
}

/// One penalized logit, in fixed-point thousandths: a positive logit is
/// divided by the penalty, a non-positive one multiplied by it, damping an
/// already-used token whatever the sign of its score.
pub open spec fn penalized_logit(l: i64, p: u64) -> i64 {
    if l > 0 {
        ((l * 1000) / (p as int)) as i64
    } else {
        (0 - (((0 - l) * (p as int)) / 1000)) as i64
    }
}

/// The whole filtered logit vector: a penalty of exactly 1000 (that is, 1.0)
/// is an explicit no-op; otherwise every token id present in the window is
/// penalized and every other entry is untouched.
pub open spec fn apply_penalty_spec(l: Seq<i64>, w: Seq<u32>, p: u64) -> Seq<i64> {
    if p == 1000 {
        l
    } else {
        Seq::new(l.len(), |i: int| if in_window(w, i) { penalized_logit(l[i], p) } else { l[i] })
    }
}

/// A penalty of 1.0 changes nothing, even without the fast path: each entry
/// is penalized to itself.
pub proof fn lemma_penalty_one_is_identity(l: Seq<i64>, w: Seq<u32>)
    ensures
        apply_penalty_spec(l, w, 1000) == l,
        Seq::new(
            l.len(),
            |i: int| if in_window(w, i) { penalized_logit(l[i], 1000) } else { l[i] },
        ) =~= l,
{
    assert forall|i: int| 0 <= i < l.len() implies penalized_logit(l[i], 1000) == l[i] by {
        let v = l[i];
        if v > 0 {
            assert((v * 1000) / 1000 == v) by (nonlinear_arith);
        } else {
            assert(((0 - v) * 1000) / 1000 == 0 - v) by (nonlinear_arith);
        }
    }
}

/// A filtered logit stays within the sampler's bound: a positive logit only
/// shrinks, and a non-positive one grows at most by the penalty ceiling.
pub proof fn lemma_penalized_in_bounds(l: i64, p: u64)
    requires
        -MAX_LOGIT_ABS <= l <= MAX_LOGIT_ABS,
        1000 <= p <= MAX_PENALTY_MILLI,
    ensures
        -MAX_FILTERED_ABS <= penalized_logit(l, p) <= MAX_FILTERED_ABS,
{
    if l > 0 {
        assert(0 <= (l * 1000) / (p as int) <= l) by (nonlinear_arith)
            requires
                l > 0,
                p >= 1000,
        ;
    } else {
        let m = 0 - l;
        assert(0 <= m * (p as int) <= MAX_LOGIT_ABS * MAX_PENALTY_MILLI) by (nonlinear_arith)
            requires
                0 <= m <= MAX_LOGIT_ABS,
                1000 <= p as int <= MAX_PENALTY_MILLI,
        ;
        assert(0 <= (m * (p as int)) / 1000 <= (MAX_LOGIT_ABS * MAX_PENALTY_MILLI) / 1000)
            by (nonlinear_arith)
            requires
                0 <= m * (p as int) <= MAX_LOGIT_ABS * MAX_PENALTY_MILLI,
        ;
    }
}

/// Every entry of a filtered logit vector stays within the sampler's bound.
pub proof fn lemma_apply_penalty_in_bounds(l: Seq<i64>, w: Seq<u32>, p: u64)
    requires
        1000 <= p <= MAX_PENALTY_MILLI,
        forall|i: int| 0 <= i < l.len() ==> -MAX_LOGIT_ABS <= #[trigger] l[i] <= MAX_LOGIT_ABS,
    ensures
        apply_penalty_spec(l, w, p).len() == l.len(),
        forall|i: int|
            0 <= i < l.len() ==> -MAX_FILTERED_ABS <= #[trigger] apply_penalty_spec(l, w, p)[i]
                <= MAX_FILTERED_ABS,
{
    assert forall|i: int| 0 <= i < l.len() implies -MAX_FILTERED_ABS <= #[trigger] apply_penalty_spec(
        l,
        w,
        p,
    )[i] <= MAX_FILTERED_ABS by {
        if p != 1000 && in_window(w, i) {
            lemma_penalized_in_bounds(l[i], p);
        }
    }
}

fn penalize_one(l: i64, p: u64) -> (r: i64)
    requires
        -MAX_LOGIT_ABS <= l <= MAX_LOGIT_ABS,
        1000 <= p <= MAX_PENALTY_MILLI,
    ensures
        r == penalized_logit(l, p),
{
    if l > 0 {
        let num: u64 = (l as u64) * 1000;
        let q: u64 = num / p;
        proof {
            assert(num == l * 1000);
            assert(q == (l * 1000) / (p as int));
            assert(q <= num / 1000) by {
                vstd::arithmetic::div_mod::lemma_div_is_ordered_by_denominator(
                    num as int,
                    1000,
                    p as int,
                );
            }
            assert(num / 1000 == l) by (nonlinear_arith)
                requires
                    num == l * 1000,
                    l > 0,
            ;
        }
        q as i64
    } else {
        let m: u64 = (0 - l) as u64;
        proof {
            assert(m == 0 - l);
            assert(m as int * p as int <= MAX_LOGIT_ABS as int * MAX_PENALTY_MILLI as int)
                by (nonlinear_arith)
                requires
                    0 <= m as int <= MAX_LOGIT_ABS as int,
                    0 <= p as int <= MAX_PENALTY_MILLI as int,
            ;
        }
        let num: u64 = m * (p as u64);
        let q: u64 = num / 1000;
        proof {
            assert(num == (0 - l) * (p as int));
            assert(q <= num);
            assert(q == ((0 - l) * (p as int)) / 1000);
        }
        0 - (q as i64)
    }
}

/// Adjusts logits for recent repetition: every distinct token id among the
/// last `window` entries of `recent` has its logit damped by
/// `penalty_milli` thousandths; all other logits pass through unchanged, and
/// a penalty of 1.0 returns the vector byte-identically.
pub fn apply_repeat_penalty(
    logits: &Vec<i64>,
    recent: &Vec<u32>,
    penalty_milli: u64,
    window: usize,
) -> (r: Vec<i64>)
    requires
        1000 <= penalty_milli <= MAX_PENALTY_MILLI,
        logits@.len() <= MAX_VOCAB,
        forall|i: int|
            0 <= i < logits@.len() ==> -MAX_LOGIT_ABS <= #[trigger] logits@[i] <= MAX_LOGIT_ABS,
    ensures
        r@ == apply_penalty_spec(logits@, last_n(recent@, window as nat), penalty_milli),
{
    let ghost w = last_n(recent@, window as nat);
    if penalty_milli == 1000 {
        let mut same: Vec<i64> = Vec::new();
        let mut i: usize = 0;
        while i < logits.len()
            invariant
                i <= logits@.len(),
                same@ =~= logits@.subrange(0, i as int),
            decreases logits@.len() - i,
        {
            same.push(logits[i]);
            i += 1;
        }
        assert(same@ =~= logits@);
        return same;
    }

    let start: usize = if recent.len() > window {
        recent.len() - window
    } else {
        0
    };
    proof {
        assert(w =~= recent@.subrange(start as int, recent@.len() as int));
    }
    let mut marked: Vec<bool> = Vec::new();
    let mut j: usize = 0;
    while j < logits.len()
        invariant
            j <= logits@.len(),
            marked@.len() == j,
            forall|t: int| 0 <= t < j ==> !(#[trigger] marked@[t]),
        decreases logits@.len() - j,
    {
        marked.push(false);
        j += 1;
    }

    let mut k: usize = start;
    while k < recent.len()
        invariant
            start <= k <= recent@.len(),
            marked@.len() == logits@.len(),
            w == recent@.subrange(start as int, recent@.len() as int),
            forall|t: int|
                0 <= t < marked@.len() ==> (#[trigger] marked@[t] <==> in_window(
                    recent@.subrange(start as int, k as int),
                    t,
                )),
        decreases recent@.len() - k,
    {
        let id = recent[k];
        let ghost prev = recent@.subrange(start as int, k as int);
        let ghost cur = recent@.subrange(start as int, k as int + 1);
        let ghost before = marked@;
        if (id as usize) < marked.len() {
            let idx = id as usize;
            marked[idx] = true;
        }
        proof {
            assert(cur =~= prev.push(recent@[k as int]));
            assert(cur[prev.len() as int] == id);
            assert forall|t: int| #![auto] 0 <= t < marked@.len() implies (in_window(cur, t) <==> (
            in_window(prev, t) || t == id as int)) by {
                if in_window(cur, t) {
                    let wk = choose|wk: int| 0 <= wk < cur.len() && cur[wk] == t;
                    if wk < prev.len() {
                        assert(prev[wk] == t);
                        assert(in_window(prev, t));
                    } else {
                        assert(t == id as int);
                    }
                }
                if in_window(prev, t) {
                    let wk = choose|wk: int| 0 <= wk < prev.len() && prev[wk] == t;
                    assert(cur[wk] == t);
                }
                if t == id as int {
                    assert(cur[prev.len() as int] == t);
                }
            }
            if (id as usize) < marked@.len() {
                assert(marked@ =~= before.update(id as int, true));
            }
        }
        k += 1;
    }
    proof {
        assert(recent@.subrange(start as int, recent@.len() as int) =~= w);
    }

    let mut out: Vec<i64> = Vec::new();
    let mut i: usize = 0;
    while i < logits.len()
        invariant
            i <= logits@.len(),
            marked@.len() == logits@.len(),
            1000 < penalty_milli <= MAX_PENALTY_MILLI,
            forall|t: int|
                0 <= t < logits@.len() ==> -MAX_LOGIT_ABS <= #[trigger] logits@[t]
                    <= MAX_LOGIT_ABS,
            forall|t: int| 0 <= t < marked@.len() ==> (#[trigger] marked@[t] <==> in_window(w, t)),
            out@.len() == i,
            forall|t: int|
                0 <= t < i ==> #[trigger] out@[t] == (if in_window(w, t) {
                    penalized_logit(logits@[t], penalty_milli)
                } else {
                    logits@[t]
                }),
        decreases logits@.len() - i,
    {
        if marked[i] {
            out.push(penalize_one(logits[i], penalty_milli));
        } else {
            out.push(logits[i]);
        }
        i += 1;
    }
    assert(out@ =~= apply_penalty_spec(logits@, w, penalty_milli));
    out
}

} // verus!

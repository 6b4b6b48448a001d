use vstd::prelude::*;
use crate::config::{MAX_LEN_BOUND, SAFETY_MARGIN};

verus! {

/// How many context tokens may be fed to the model when `to_generate` tokens
/// are still owed: the ceiling minus the safety margin minus them, clamped at
/// zero.
pub open spec fn context_budget(max_context: nat, to_generate: nat) -> nat {
    if max_context > SAFETY_MARGIN + to_generate {
        (max_context - SAFETY_MARGIN - to_generate) as nat
    } else {
        0
    }
}

/// Front-truncation: keep the newest `budget` elements, dropping only from
/// the front, so the causal order of retained tokens is preserved.
pub open spec fn truncate_front(s: Seq<u32>, budget: nat) -> Seq<u32> {
    if s.len() <= budget {
        s
    } else {
        s.skip(s.len() - budget)
    }
}

/// The sequence fed to the model for the prompt pass of a turn: carried
/// history, then the new tokens, front-truncated to the context budget.
pub open spec fn build_spec(
    history: Seq<u32>,
    new_tokens: Seq<u32>,
    to_generate: nat,
    max_context: nat,
) -> Seq<u32> {
    truncate_front(history + new_tokens, context_budget(max_context, to_generate))
}

/// Assembles the token sequence for a turn's first forward call:
/// `history ++ new_tokens`, front-truncated so that the result plus
/// `to_generate` still fits under `max_context` minus the safety margin.
pub fn build_context(
    history: &Vec<u32>,
    new_tokens: &Vec<u32>,
    to_generate: usize,
    max_context: usize,
) -> (r: Vec<u32>)
    requires
        history@.len() + new_tokens@.len() <= MAX_LEN_BOUND,
        to_generate <= MAX_LEN_BOUND,
        SAFETY_MARGIN < max_context <= MAX_LEN_BOUND,
    ensures
        r@ == build_spec(history@, new_tokens@, to_generate as nat, max_context as nat),
        r@.len() <= max_context - SAFETY_MARGIN,
{
    let mut joined: Vec<u32> = Vec::new();
    joined.extend_from_slice(history.as_slice());
    joined.extend_from_slice(new_tokens.as_slice());
    assert(joined@ =~= history@ + new_tokens@);

    let margin_room = max_context - SAFETY_MARGIN;
    let budget: usize = if margin_room > to_generate {
        margin_room - to_generate
    } else {
        0
    };
    assert(budget as nat == context_budget(max_context as nat, to_generate as nat));

    if joined.len() <= budget {
        return joined;
    }
    let drop_count = joined.len() - budget;
    let mut kept: Vec<u32> = Vec::new();
    let mut i: usize = drop_count;
    while i < joined.len()
        invariant
            drop_count <= i <= joined@.len(),
            kept@ =~= joined@.subrange(drop_count as int, i as int),
        decreases joined@.len() - i,
    {
        kept.push(joined[i]);
        i += 1;
    }
    assert(kept@ =~= joined@.skip(drop_count as int));
    kept
}

/// Truncation removes only from the front: whenever the assembled sequence
/// plus the tokens still to generate overflows the ceiling minus the safety
/// margin, what is fed is a suffix of the assembled sequence, and its length
/// is exactly the context budget (the overhang clamped at zero).
pub proof fn lemma_truncation_suffix(
    history: Seq<u32>,
    new_tokens: Seq<u32>,
    to_generate: nat,
    max_context: nat,
)
    requires
        max_context > SAFETY_MARGIN,
        history.len() + new_tokens.len() + to_generate > max_context - SAFETY_MARGIN,
    ensures
        ({
            let s = history + new_tokens;
            let r = build_spec(history, new_tokens, to_generate, max_context);
            &&& r.len() == context_budget(max_context, to_generate)
            &&& r == s.skip(s.len() - r.len())
        }),
{
    let s = history + new_tokens;
    let b = context_budget(max_context, to_generate);
    assert(b <= s.len());
    if s.len() <= b {
        assert(s.skip(0) =~= s);
    }
}

/// Whether or not truncation fires, the fed sequence is a suffix of the
/// assembled one.
pub proof fn lemma_build_is_suffix(
    history: Seq<u32>,
    new_tokens: Seq<u32>,
    to_generate: nat,
    max_context: nat,
)
    ensures
        ({
            let s = history + new_tokens;
            let r = build_spec(history, new_tokens, to_generate, max_context);
            exists|d: int| 0 <= d <= s.len() && r == s.skip(d)
        }),
{
    let s = history + new_tokens;
    let b = context_budget(max_context, to_generate);
    let r = build_spec(history, new_tokens, to_generate, max_context);
    if s.len() <= b {
        assert(s.skip(0) =~= s);
        assert(0 <= 0 <= s.len() && r == s.skip(0));
    } else {
        let d = s.len() - b;
        assert(0 <= d <= s.len() && r == s.skip(d));
    }
}

} // verus!

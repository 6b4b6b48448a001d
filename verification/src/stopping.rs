use vstd::prelude::*;

verus! {

/// Whether a turn halts after emitting `token`, given how many tokens the
/// turn had emitted before it. The forced first token of a turn (sampled from
/// the prompt pass alone) counts toward the budget like any other.
pub open spec fn should_stop_spec(token: u32, emitted_before: nat, sample_len: nat, eos: u32) -> bool {
    token == eos || emitted_before + 1 >= sample_len
}

/// Stopping policy: a turn halts on the end-of-sequence token, or once the
/// emitted budget of `sample_len` tokens is used up.
pub fn should_stop(token: u32, emitted_before: usize, sample_len: usize, eos_token: u32) -> (r:
    bool)
    ensures
        r == should_stop_spec(token, emitted_before as nat, sample_len as nat, eos_token),
{
    token == eos_token || sample_len == 0 || emitted_before >= sample_len - 1
}

} // verus!

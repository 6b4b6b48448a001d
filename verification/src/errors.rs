use vstd::prelude::*;

verus! {

/// The failures a turn can surface. There are no internal retries: every
/// failure goes straight to the caller, and output already streamed before a
/// mid-turn failure is never retracted.
#[derive(Clone, Copy, Debug, PartialEq, Eq, Structural)]
pub enum EngineError {
    /// The tokenizer rejected the input; the turn is discarded but the
    /// session stays usable.
    EncodingFailure,
    /// A model scoring call failed; fatal to the turn, propagated without
    /// retry.
    ForwardFailure,
    /// The blocking read of the next input failed; fatal to the session.
    InputAcquisitionFailure,
}

} // verus!

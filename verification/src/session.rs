use vstd::prelude::*;
use crate::config::{GenerationConfig, MAX_LEN_BOUND};
use crate::context::{build_spec, context_budget, truncate_front};
use crate::engine::TurnEngine;

verus! {

/// The interaction mode of a session: a single prompt supplied up front, one
/// independent prompt per turn, or a chat whose turns carry history.
#[derive(Debug)]
pub enum Prompt {
    Interactive,
    Chat,
    One(String),
}

/// A single-owner, multi-turn generation session: the mode, the carried
/// history, and the turn count. Only Chat mode retains history.
pub struct Session {
    pub config: GenerationConfig,
    pub eos_token: u32,
    pub mode: Prompt,
    pub history: Vec<u32>,
    pub turn_count: usize,
}

impl Session {
    /// The session invariant: a valid configuration, history only in Chat
    /// mode, and history bounded by one turn's context plus output.
    pub open spec fn wf(self) -> bool {
        &&& self.config.valid()
        &&& (!(self.mode is Chat) ==> self.history@.len() == 0)
        &&& self.history@.len() <= self.config.max_context_tokens + self.config.sample_len
    }

    /// Whether another turn may start: a one-shot session runs exactly once,
    /// the interactive modes have no such limit.
    pub open spec fn turn_allowed(self) -> bool {
        match self.mode {
            Prompt::One(_) => self.turn_count == 0,
            _ => true,
        }
    }

    /// Creates a session with empty history; the end-of-sequence id is
    /// looked up once, here, and never changes.
    pub fn new(config: &GenerationConfig, eos_token: u32, mode: Prompt) -> (r: Session)
        requires
            config.valid(),
        ensures
            r.config == *config,
            r.eos_token == eos_token,
            r.mode == mode,
            r.history@ == Seq::<u32>::empty(),
            r.turn_count == 0,
            r.wf(),
            r.turn_allowed(),
    {
        Session { config: *config, eos_token, mode, history: Vec::new(), turn_count: 0 }
    }

    /// Begins a turn: hands back an engine whose context is the carried
    /// history plus the new prompt tokens, front-truncated to budget.
    pub fn start_turn(&self, prompt_tokens: &Vec<u32>) -> (r: TurnEngine)
        requires
            self.wf(),
            self.turn_allowed(),
            self.history@.len() + prompt_tokens@.len() <= MAX_LEN_BOUND,
        ensures
            r.config == self.config,
            r.eos_token == self.eos_token,
            r.context@ == build_spec(
                self.history@,
                prompt_tokens@,
                self.config.sample_len as nat,
                self.config.max_context_tokens as nat,
            ),
            r.generated@ == Seq::<u32>::empty(),
            r.rng.state == self.config.seed,
            !r.done,
            r.wf(),
    {
        TurnEngine::start(&self.config, self.eos_token, &self.history, prompt_tokens)
    }

    /// Ends a turn: in Chat mode the fed context followed by everything the
    /// turn generated becomes the history the next turn is built on; the
    /// other modes retain nothing. The turn count always advances.
    pub fn finish_turn(&mut self, engine: &TurnEngine)
        requires
            old(self).wf(),
            old(self).turn_count < usize::MAX,
            engine.wf(),
            engine.config == old(self).config,
        ensures
            final(self).turn_count == old(self).turn_count + 1,
            old(self).mode is Chat ==> final(self).history@ == engine.context@
                + engine.generated@,
            !(old(self).mode is Chat) ==> final(self).history@ == old(self).history@,
            final(self).mode == old(self).mode,
            final(self).config == old(self).config,
            final(self).eos_token == old(self).eos_token,
            final(self).wf(),
    {
        match &self.mode {
            Prompt::Chat => {
                let mut folded: Vec<u32> = Vec::new();
                folded.extend_from_slice(engine.context.as_slice());
                folded.extend_from_slice(engine.generated.as_slice());
                assert(folded@ =~= engine.context@ + engine.generated@);
                self.history = folded;
            },
            _ => {},
        }
        self.turn_count = self.turn_count + 1;
    }
}

/// Chat history accumulation: when a turn that fed `fed` and generated `gen`
/// folds into history, the context of the next turn (over new prompt tokens
/// `next_prompt`) is exactly the concatenation of all of them,
/// front-truncated to the context budget; in particular it is a suffix of
/// that concatenation.
pub proof fn lemma_chat_accumulation(
    fed: Seq<u32>,
    gen: Seq<u32>,
    next_prompt: Seq<u32>,
    to_generate: nat,
    max_context: nat,
)
    ensures
        build_spec(fed + gen, next_prompt, to_generate, max_context) == truncate_front(
            fed + gen + next_prompt,
            context_budget(max_context, to_generate),
        ),
        ({
            let whole = fed + gen + next_prompt;
            let r = build_spec(fed + gen, next_prompt, to_generate, max_context);
            exists|d: int| 0 <= d <= whole.len() && r == whole.skip(d)
        }),
{
    crate::context::lemma_build_is_suffix(fed + gen, next_prompt, to_generate, max_context);
}

/// The fixed instruction-delimiter opening an instruction-tuned chat turn.
pub open spec fn inst_prefix() -> Seq<char> {
    seq!['[', 'I', 'N', 'S', 'T', ']', ' ']
}

/// The fixed instruction-delimiter closing an instruction-tuned chat turn.
pub open spec fn inst_suffix() -> Seq<char> {
    seq![' ', '[', '/', 'I', 'N', 'S', 'T', ']']
}

/// What a raw turn becomes before encoding: wrapped in the instruction
/// template for instruction-tuned model variants, untouched for the rest.
pub open spec fn framed_spec(raw: Seq<char>, wrap: bool) -> Seq<char> {
    if wrap {
        inst_prefix() + raw + inst_suffix()
    } else {
        raw
    }
}

/// Applies the per-model-family chat framing policy to one raw input turn.
pub fn frame_turn_input(raw: &Vec<char>, instruct_wrap: bool) -> (r: Vec<char>)
    ensures
        r@ == framed_spec(raw@, instruct_wrap),
{
    if !instruct_wrap {
        let mut plain: Vec<char> = Vec::new();
        plain.extend_from_slice(raw.as_slice());
        assert(plain@ =~= raw@);
        return plain;
    }
    let mut out: Vec<char> = Vec::new();
    out.push('[');
    out.push('I');
    out.push('N');
    out.push('S');
    out.push('T');
    out.push(']');
    out.push(' ');
    out.extend_from_slice(raw.as_slice());
    out.push(' ');
    out.push('[');
    out.push('/');
    out.push('I');
    out.push('N');
    out.push('S');
    out.push('T');
    out.push(']');
    assert(out@ =~= inst_prefix() + raw@ + inst_suffix());
    out
}

} // verus!

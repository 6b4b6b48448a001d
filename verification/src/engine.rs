use vstd::prelude::*;
use crate::config::{GenerationConfig, MAX_LEN_BOUND, MAX_LOGIT_ABS, MAX_VOCAB, SAFETY_MARGIN};
use crate::context::{build_context, build_spec};
use crate::penalty::{apply_penalty_spec, apply_repeat_penalty, last_n, lemma_apply_penalty_in_bounds};
use crate::rng::SamplerState;
use crate::sampler::{sample, sample_rng_after, sample_spec};
use crate::stopping::{should_stop, should_stop_spec};

verus! {

/// One emitted token: its id and whether the turn halts after it. Never
/// mutated after creation.
#[derive(Clone, Copy, Debug, PartialEq, Eq, Structural)]
pub struct GeneratedToken {
    pub id: u32,
    pub is_stop: bool,
}

/// The token the engine emits for a logit vector, given the tokens already
/// generated this turn and the generator state: the repeat-penalty filter
/// over the trailing window, then the sampling policy.
pub open spec fn step_token_spec(
    cfg: GenerationConfig,
    gen: Seq<u32>,
    rng: u64,
    logits: Seq<i64>,
) -> int {
    sample_spec(
        apply_penalty_spec(logits, last_n(gen, cfg.repeat_window as nat), cfg.repeat_penalty_milli),
        cfg,
        rng,
    )
}

/// One turn of generation, driven step by step. The host feeds the model's
/// logits for each forward pass; the engine owns every decision: filtering,
/// sampling, stopping, and the bookkeeping of positions. Its per-turn phases
/// are: context assembly at `start`, the prompt forward pass scored by the
/// first `step`, then one `step` per subsequent forward pass until `done`.
pub struct TurnEngine {
    pub config: GenerationConfig,
    pub eos_token: u32,
    /// The tokens fed to the model at offset zero: the assembled, truncated
    /// context of this turn.
    pub context: Vec<u32>,
    /// Every token emitted this turn, the forced first token included.
    pub generated: Vec<u32>,
    pub rng: SamplerState,
    pub done: bool,
}

impl TurnEngine {
    /// The engine's invariant: the fed context respects the safety margin,
    /// and the emitted count never exceeds the per-turn budget.
    pub open spec fn wf(self) -> bool {
        &&& self.config.valid()
        &&& self.context@.len() + SAFETY_MARGIN <= self.config.max_context_tokens
        &&& self.generated@.len() <= self.config.sample_len
        &&& (!self.done ==> self.generated@.len() < self.config.sample_len)
    }

    /// Starts a turn: assembles and front-truncates the context from carried
    /// history and the newly encoded prompt, and seeds the draw stream.
    pub fn start(
        config: &GenerationConfig,
        eos_token: u32,
        history: &Vec<u32>,
        prompt_tokens: &Vec<u32>,
    ) -> (r: TurnEngine)
        requires
            config.valid(),
            history@.len() + prompt_tokens@.len() <= MAX_LEN_BOUND,
        ensures
            r.config == *config,
            r.eos_token == eos_token,
            r.context@ == build_spec(
                history@,
                prompt_tokens@,
                config.sample_len as nat,
                config.max_context_tokens as nat,
            ),
            r.generated@ == Seq::<u32>::empty(),
            r.rng.state == config.seed,
            !r.done,
            r.wf(),
    {
        let context = build_context(
            history,
            prompt_tokens,
            config.sample_len,
            config.max_context_tokens,
        );
        TurnEngine {
            config: *config,
            eos_token,
            context,
            generated: Vec::new(),
            rng: SamplerState::new(config.seed),
            done: false,
        }
    }

    /// Scores one forward pass: filters the logits by the repeat penalty
    /// over the trailing window of this turn's output, samples the next
    /// token, appends it, and decides whether the turn halts, either on the
    /// end-of-sequence token or on budget exhaustion.
    pub fn step(&mut self, logits: &Vec<i64>) -> (t: GeneratedToken)
        requires
            old(self).wf(),
            !old(self).done,
            1 <= logits@.len() <= MAX_VOCAB,
            forall|i: int|
                0 <= i < logits@.len() ==> -MAX_LOGIT_ABS <= #[trigger] logits@[i]
                    <= MAX_LOGIT_ABS,
        ensures
            t.id as int == step_token_spec(
                old(self).config,
                old(self).generated@,
                old(self).rng.state,
                logits@,
            ),
            (t.id as int) < logits@.len(),
            t.is_stop == should_stop_spec(
                t.id,
                old(self).generated@.len(),
                old(self).config.sample_len as nat,
                old(self).eos_token,
            ),
            final(self).generated@ == old(self).generated@.push(t.id),
            final(self).rng.state == sample_rng_after(old(self).config, old(self).rng.state),
            final(self).done == t.is_stop,
            final(self).config == old(self).config,
            final(self).eos_token == old(self).eos_token,
            final(self).context@ == old(self).context@,
            final(self).wf(),
    {
        let filtered = apply_repeat_penalty(
            logits,
            &self.generated,
            self.config.repeat_penalty_milli,
            self.config.repeat_window,
        );
        proof {
            lemma_apply_penalty_in_bounds(
                logits@,
                last_n(self.generated@, self.config.repeat_window as nat),
                self.config.repeat_penalty_milli,
            );
        }
        let id = sample(&filtered, &self.config, &mut self.rng);
        let stop = should_stop(id, self.generated.len(), self.config.sample_len, self.eos_token);
        self.generated.push(id);
        self.done = stop;
        GeneratedToken { id, is_stop: stop }
    }

    /// The position offset the model must be given for the next single-token
    /// forward pass: the cumulative count of tokens already fed, which is the
    /// context plus everything emitted except the token about to be fed.
    pub fn next_position(&self) -> (r: usize)
        requires
            self.wf(),
            self.generated@.len() >= 1,
        ensures
            r == self.context@.len() + self.generated@.len() - 1,
    {
        self.context.len() + self.generated.len() - 1
    }
}

/// One call of `step` is one unfolding of the turn's specification run:
/// starting it from the old engine state over a logit stream beginning with
/// the fed logits either ends right here (on a stop) with exactly the new
/// engine's output, or continues from the new engine's state over the rest.
pub proof fn lemma_step_matches_run(
    cfg: GenerationConfig,
    eos: u32,
    old_rng: u64,
    old_gen: Seq<u32>,
    t: GeneratedToken,
    new_rng: u64,
    new_gen: Seq<u32>,
    logits: Seq<i64>,
    rest: Seq<Seq<i64>>,
)
    requires
        t.id as int == step_token_spec(cfg, old_gen, old_rng, logits),
        t.is_stop == should_stop_spec(t.id, old_gen.len(), cfg.sample_len as nat, eos),
        new_gen == old_gen.push(t.id),
        new_rng == sample_rng_after(cfg, old_rng),
    ensures
        turn_run_from(cfg, eos, old_rng, old_gen, seq![logits] + rest) == if t.is_stop {
            new_gen
        } else {
            turn_run_from(cfg, eos, new_rng, new_gen, rest)
        },
{
    let oracle = seq![logits] + rest;
    assert(oracle[0] == logits);
    assert(oracle.skip(1) =~= rest);
    assert(step_token_spec(cfg, old_gen, old_rng, oracle[0]) as u32 == t.id);
}

/// The tokens a turn emits, as a function of the configuration, the
/// end-of-sequence id, the generator state, what was already emitted, and
/// the stream of logit vectors the model hands back (one per forward pass).
pub open spec fn turn_run_from(
    cfg: GenerationConfig,
    eos: u32,
    rng: u64,
    gen: Seq<u32>,
    oracle: Seq<Seq<i64>>,
) -> Seq<u32>
    decreases oracle.len(),
{
    if oracle.len() == 0 {
        gen
    } else {
        let tok = step_token_spec(cfg, gen, rng, oracle[0]) as u32;
        let gen2 = gen.push(tok);
        if should_stop_spec(tok, gen.len(), cfg.sample_len as nat, eos) {
            gen2
        } else {
            turn_run_from(cfg, eos, sample_rng_after(cfg, rng), gen2, oracle.skip(1))
        }
    }
}

/// A whole turn from a fresh engine: every token it emits, given the model's
/// logit vectors in order.
pub open spec fn turn_run(cfg: GenerationConfig, eos: u32, oracle: Seq<Seq<i64>>) -> Seq<u32> {
    turn_run_from(cfg, eos, cfg.seed, Seq::empty(), oracle)
}

pub proof fn lemma_turn_run_from_facts(
    cfg: GenerationConfig,
    eos: u32,
    rng: u64,
    gen: Seq<u32>,
    oracle: Seq<Seq<i64>>,
)
    requires
        cfg.sample_len >= 1,
        gen.len() < cfg.sample_len,
    ensures
        ({
            let out = turn_run_from(cfg, eos, rng, gen, oracle);
            &&& gen.len() <= out.len() <= cfg.sample_len
            &&& forall|j: int| 0 <= j < gen.len() ==> #[trigger] out[j] == gen[j]
        }),
    decreases oracle.len(),
{
    if oracle.len() > 0 {
        let tok = step_token_spec(cfg, gen, rng, oracle[0]) as u32;
        let gen2 = gen.push(tok);
        if !should_stop_spec(tok, gen.len(), cfg.sample_len as nat, eos) {
            lemma_turn_run_from_facts(cfg, eos, sample_rng_after(cfg, rng), gen2, oracle.skip(1));
        }
    }
}

/// However many forward passes the model serves, a turn emits at most
/// `sample_len` tokens.
pub proof fn lemma_turn_within_budget(cfg: GenerationConfig, eos: u32, oracle: Seq<Seq<i64>>)
    requires
        cfg.valid(),
    ensures
        turn_run(cfg, eos, oracle).len() <= cfg.sample_len,
{
    lemma_turn_run_from_facts(cfg, eos, cfg.seed, Seq::empty(), oracle);
}

/// The same turn with the repeat-penalty filter taken out entirely: the
/// logits go to the sampler untouched.
pub open spec fn turn_run_unfiltered_from(
    cfg: GenerationConfig,
    eos: u32,
    rng: u64,
    gen: Seq<u32>,
    oracle: Seq<Seq<i64>>,
) -> Seq<u32>
    decreases oracle.len(),
{
    if oracle.len() == 0 {
        gen
    } else {
        let tok = sample_spec(oracle[0], cfg, rng) as u32;
        let gen2 = gen.push(tok);
        if should_stop_spec(tok, gen.len(), cfg.sample_len as nat, eos) {
            gen2
        } else {
            turn_run_unfiltered_from(cfg, eos, sample_rng_after(cfg, rng), gen2, oracle.skip(1))
        }
    }
}

proof fn lemma_penalty_noop_from(
    cfg: GenerationConfig,
    eos: u32,
    rng: u64,
    gen: Seq<u32>,
    oracle: Seq<Seq<i64>>,
)
    requires
        cfg.repeat_penalty_milli == 1000,
    ensures
        turn_run_from(cfg, eos, rng, gen, oracle) == turn_run_unfiltered_from(
            cfg,
            eos,
            rng,
            gen,
            oracle,
        ),
    decreases oracle.len(),
{
    if oracle.len() > 0 {
        let tok = step_token_spec(cfg, gen, rng, oracle[0]) as u32;
        assert(apply_penalty_spec(
            oracle[0],
            last_n(gen, cfg.repeat_window as nat),
            cfg.repeat_penalty_milli,
        ) == oracle[0]);
        let gen2 = gen.push(tok);
        if !should_stop_spec(tok, gen.len(), cfg.sample_len as nat, eos) {
            lemma_penalty_noop_from(cfg, eos, sample_rng_after(cfg, rng), gen2, oracle.skip(1));
        }
    }
}

/// A repeat penalty of 1.0 yields token output identical to a run with the
/// filter disabled altogether, for every seed, prompt and logit stream.
pub proof fn lemma_penalty_noop_run(cfg: GenerationConfig, eos: u32, oracle: Seq<Seq<i64>>)
    requires
        cfg.repeat_penalty_milli == 1000,
    ensures
        turn_run(cfg, eos, oracle) == turn_run_unfiltered_from(
            cfg,
            eos,
            cfg.seed,
            Seq::empty(),
            oracle,
        ),
{
    lemma_penalty_noop_from(cfg, eos, cfg.seed, Seq::empty(), oracle);
}

/// Determinism: a turn's output is a function of the configuration (seed,
/// temperature, nucleus cutoff, penalty, window), the end-of-sequence id and
/// the logit stream alone, so two identically configured runs over identical
/// logits coincide exactly.
pub proof fn lemma_determinism(
    cfg1: GenerationConfig,
    cfg2: GenerationConfig,
    eos1: u32,
    eos2: u32,
    oracle1: Seq<Seq<i64>>,
    oracle2: Seq<Seq<i64>>,
)
    requires
        cfg1 == cfg2,
        eos1 == eos2,
        oracle1 == oracle2,
    ensures
        turn_run(cfg1, eos1, oracle1) == turn_run(cfg2, eos2, oracle2),
{
}

/// Greedy invariance: with temperature zero, the emitted token is the
/// arg-max index of the penalty-adjusted logits, whatever the generator
/// state, so the seed has no influence on greedy decoding.
pub proof fn lemma_greedy_invariance(
    cfg: GenerationConfig,
    gen: Seq<u32>,
    rng1: u64,
    rng2: u64,
    logits: Seq<i64>,
)
    requires
        cfg.temperature_milli == 0,
    ensures
        step_token_spec(cfg, gen, rng1, logits) == crate::sampler::argmax(
            apply_penalty_spec(
                logits,
                last_n(gen, cfg.repeat_window as nat),
                cfg.repeat_penalty_milli,
            ),
        ),
        step_token_spec(cfg, gen, rng1, logits) == step_token_spec(cfg, gen, rng2, logits),
{
}

proof fn lemma_eos_last_from(
    cfg: GenerationConfig,
    eos: u32,
    rng: u64,
    gen: Seq<u32>,
    oracle: Seq<Seq<i64>>,
)
    requires
        cfg.sample_len >= 1,
        gen.len() < cfg.sample_len,
    ensures
        ({
            let out = turn_run_from(cfg, eos, rng, gen, oracle);
            forall|i: int| gen.len() <= i < out.len() - 1 ==> #[trigger] out[i] != eos
        }),
    decreases oracle.len(),
{
    let out = turn_run_from(cfg, eos, rng, gen, oracle);
    if oracle.len() > 0 {
        let tok = step_token_spec(cfg, gen, rng, oracle[0]) as u32;
        let gen2 = gen.push(tok);
        if !should_stop_spec(tok, gen.len(), cfg.sample_len as nat, eos) {
            assert(tok != eos);
            lemma_eos_last_from(cfg, eos, sample_rng_after(cfg, rng), gen2, oracle.skip(1));
            lemma_turn_run_from_facts(cfg, eos, sample_rng_after(cfg, rng), gen2, oracle.skip(1));
            assert(out[gen.len() as int] == gen2[gen.len() as int]);
        }
    }
}

/// Early stop: the end-of-sequence token halts the turn the moment it is
/// sampled, so it can only ever be the last emitted token, however much
/// budget was left.
pub proof fn lemma_eos_halts_turn(cfg: GenerationConfig, eos: u32, oracle: Seq<Seq<i64>>)
    requires
        cfg.valid(),
    ensures
        ({
            let out = turn_run(cfg, eos, oracle);
            forall|i: int| 0 <= i < out.len() - 1 ==> #[trigger] out[i] != eos
        }),
{
    lemma_eos_last_from(cfg, eos, cfg.seed, Seq::empty(), oracle);
}

} // verus!

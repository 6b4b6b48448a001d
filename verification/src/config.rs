use vstd::prelude::*;

verus! {

/// Tokens reserved below the model's hard context ceiling, protecting its
/// internal position tracking from off-by-one overflow.
pub const SAFETY_MARGIN: usize = 10;

/// Largest repeat penalty the engine accepts, forced by `i64` range in the
/// penalty arithmetic.
pub const MAX_PENALTY_MILLI: u64 = 1048576;

/// Largest magnitude a raw logit may have, forced by `i64` range in the
/// temperature and penalty arithmetic.
pub const MAX_LOGIT_ABS: i64 = 1099511627776;

/// Largest magnitude a penalty-filtered logit can reach; the sampler accepts
/// logits up to this bound.
pub const MAX_FILTERED_ABS: i64 = 2251799813685248;

/// Largest vocabulary size the sampler accepts, forced by `u64` range when
/// summing sampling weights.
pub const MAX_VOCAB: usize = 1073741824;

/// Ceiling on lengths entering context-budget arithmetic, forced by `usize`.
pub const MAX_LEN_BOUND: usize = 1000000000;

pub const DEFAULT_SAMPLE_LEN: usize = 1500;
pub const DEFAULT_TEMPERATURE_MILLI: u64 = 1000;
pub const DEFAULT_SEED: u64 = 299792458;
pub const DEFAULT_REPEAT_PENALTY_MILLI: u64 = 1100;
pub const DEFAULT_REPEAT_WINDOW: usize = 64;

/// Context ceiling of the quantized llama family this engine is tuned for.
pub const DEFAULT_MAX_CONTEXT_TOKENS: usize = 4096;

/// Immutable per-session sampling and context policy.
///
/// Fractional quantities (temperature, nucleus cutoff, repeat penalty) are
/// fixed-point thousandths: `temperature_milli == 0` selects greedy decoding,
/// `repeat_penalty_milli == 1000` disables the repeat penalty.
#[derive(Clone, Copy, Debug, PartialEq, Eq, Structural)]
pub struct GenerationConfig {
    /// Number of tokens a turn may emit, the forced first token included.
    pub sample_len: usize,
    /// Softmax temperature in thousandths; 0 means greedy.
    pub temperature_milli: u64,
    /// Nucleus cutoff in thousandths, in (0, 1000]; unset means full softmax.
    pub top_p_milli: Option<u64>,
    /// Seed of the session's pseudo-random draw stream.
    pub seed: u64,
    /// Repeat penalty in thousandths, at least 1000; 1000 means disabled.
    pub repeat_penalty_milli: u64,
    /// How many trailing generated tokens the repeat penalty looks at.
    pub repeat_window: usize,
    /// Hard context ceiling imposed by the model.
    pub max_context_tokens: usize,
    /// Wrap raw chat input in the instruction template of instruction-tuned
    /// model variants.
    pub instruct_wrap: bool,
    /// Echo each encoded prompt token id before generation begins.
    pub verbose_prompt: bool,
}

/// Configuration rejected at session construction.
#[derive(Clone, Copy, Debug, PartialEq, Eq, Structural)]
pub enum ConfigError {
    /// `sample_len` is zero or beyond the length ceiling.
    InvalidSampleLength,
    /// `top_p_milli` is set but outside (0, 1000].
    InvalidTopP,
    /// `repeat_penalty_milli` is below 1000 (less than no penalty) or beyond
    /// the arithmetic ceiling.
    InvalidRepeatPenalty,
    /// `max_context_tokens` leaves no room under the safety margin or is
    /// beyond the length ceiling.
    InvalidContextCeiling,
}

impl GenerationConfig {
    /// A configuration the engine's arithmetic and loops can take.
    pub open spec fn valid(self) -> bool {
        &&& 1 <= self.sample_len <= MAX_LEN_BOUND
        &&& match self.top_p_milli {
            Some(p) => 1 <= p <= 1000,
            None => true,
        }
        &&& 1000 <= self.repeat_penalty_milli <= MAX_PENALTY_MILLI
        &&& SAFETY_MARGIN < self.max_context_tokens <= MAX_LEN_BOUND
    }

    /// Builds a validated configuration; rejects exactly the field values the
    /// session may never observe mid-turn.
    pub fn new(
        sample_len: usize,
        temperature_milli: u64,
        top_p_milli: Option<u64>,
        seed: u64,
        repeat_penalty_milli: u64,
        repeat_window: usize,
        max_context_tokens: usize,
        instruct_wrap: bool,
        verbose_prompt: bool,
    ) -> (r: Result<GenerationConfig, ConfigError>)
        ensures
            (sample_len == 0 || sample_len > MAX_LEN_BOUND) <==> r == Result::<
                GenerationConfig,
                ConfigError,
            >::Err(ConfigError::InvalidSampleLength),
            (1 <= sample_len <= MAX_LEN_BOUND && match top_p_milli {
                Some(p) => p == 0 || p > 1000,
                None => false,
            }) <==> r == Result::<GenerationConfig, ConfigError>::Err(ConfigError::InvalidTopP),
            (1 <= sample_len <= MAX_LEN_BOUND && match top_p_milli {
                Some(p) => 1 <= p <= 1000,
                None => true,
            } && (repeat_penalty_milli < 1000 || repeat_penalty_milli > MAX_PENALTY_MILLI)) <==> r
                == Result::<GenerationConfig, ConfigError>::Err(ConfigError::InvalidRepeatPenalty),
            r is Ok <==> (GenerationConfig {
                sample_len,
                temperature_milli,
                top_p_milli,
                seed,
                repeat_penalty_milli,
                repeat_window,
                max_context_tokens,
                instruct_wrap,
                verbose_prompt,
            }).valid(),
            r is Ok ==> r->Ok_0 == (GenerationConfig {
                sample_len,
                temperature_milli,
                top_p_milli,
                seed,
                repeat_penalty_milli,
                repeat_window,
                max_context_tokens,
                instruct_wrap,
                verbose_prompt,
            }),
    {
        if sample_len == 0 || sample_len > MAX_LEN_BOUND {
            return Err(ConfigError::InvalidSampleLength);
        }
        if let Some(p) = top_p_milli {
            if p == 0 || p > 1000 {
                return Err(ConfigError::InvalidTopP);
            }
        }
        if repeat_penalty_milli < 1000 || repeat_penalty_milli > MAX_PENALTY_MILLI {
            return Err(ConfigError::InvalidRepeatPenalty);
        }
        if max_context_tokens <= SAFETY_MARGIN || max_context_tokens > MAX_LEN_BOUND {
            return Err(ConfigError::InvalidContextCeiling);
        }
        Ok(
            GenerationConfig {
                sample_len,
                temperature_milli,
                top_p_milli,
                seed,
                repeat_penalty_milli,
                repeat_window,
                max_context_tokens,
                instruct_wrap,
                verbose_prompt,
            },
        )
    }
}

impl Default for GenerationConfig {
    /// The session defaults: 1500 tokens per turn, temperature 1.0, no nucleus
    /// cutoff, repeat penalty 1.1 over the last 64 tokens.
    fn default() -> (r: GenerationConfig)
        ensures
            r == (GenerationConfig {
                sample_len: DEFAULT_SAMPLE_LEN,
                temperature_milli: DEFAULT_TEMPERATURE_MILLI,
                top_p_milli: None,
                seed: DEFAULT_SEED,
                repeat_penalty_milli: DEFAULT_REPEAT_PENALTY_MILLI,
                repeat_window: DEFAULT_REPEAT_WINDOW,
                max_context_tokens: DEFAULT_MAX_CONTEXT_TOKENS,
                instruct_wrap: false,
                verbose_prompt: false,
            }),
            r.valid(),
    {
        GenerationConfig {
            sample_len: DEFAULT_SAMPLE_LEN,
            temperature_milli: DEFAULT_TEMPERATURE_MILLI,
            top_p_milli: None,
            seed: DEFAULT_SEED,
            repeat_penalty_milli: DEFAULT_REPEAT_PENALTY_MILLI,
            repeat_window: DEFAULT_REPEAT_WINDOW,
            max_context_tokens: DEFAULT_MAX_CONTEXT_TOKENS,
            instruct_wrap: false,
            verbose_prompt: false,
        }
    }
}

} // verus!

use ai_engine::config::{ConfigError, GenerationConfig};
use ai_engine::context::build_context;

#[test]
fn defaults_match_the_documented_surface() {
    let cfg = GenerationConfig::default();
    assert_eq!(cfg.sample_len, 1500);
    assert_eq!(cfg.temperature_milli, 1000);
    assert_eq!(cfg.top_p_milli, None);
    assert_eq!(cfg.seed, 299792458);
    assert_eq!(cfg.repeat_penalty_milli, 1100);
    assert_eq!(cfg.repeat_window, 64);
    assert_eq!(cfg.max_context_tokens, 4096);
    assert!(!cfg.instruct_wrap);
    assert!(!cfg.verbose_prompt);
}

#[test]
fn zero_sample_length_is_rejected() {
    let r = GenerationConfig::new(0, 1000, None, 1, 1100, 64, 4096, false, false);
    assert_eq!(r, Err(ConfigError::InvalidSampleLength));
}

#[test]
fn top_p_outside_unit_interval_is_rejected() {
    let r = GenerationConfig::new(10, 1000, Some(0), 1, 1100, 64, 4096, false, false);
    assert_eq!(r, Err(ConfigError::InvalidTopP));
    let r = GenerationConfig::new(10, 1000, Some(1001), 1, 1100, 64, 4096, false, false);
    assert_eq!(r, Err(ConfigError::InvalidTopP));
    let r = GenerationConfig::new(10, 1000, Some(1000), 1, 1100, 64, 4096, false, false);
    assert!(r.is_ok());
}

#[test]
fn penalty_below_one_is_rejected() {
    let r = GenerationConfig::new(10, 1000, None, 1, 999, 64, 4096, false, false);
    assert_eq!(r, Err(ConfigError::InvalidRepeatPenalty));
}

#[test]
fn context_ceiling_under_margin_is_rejected() {
    let r = GenerationConfig::new(10, 1000, None, 1, 1100, 64, 10, false, false);
    assert_eq!(r, Err(ConfigError::InvalidContextCeiling));
}

#[test]
fn truncation_drops_exactly_the_overhang() {
    // Prompt of maxContextTokens - safetyMargin - 5 tokens with sampleLength
    // 20: exactly 15 leading tokens go, and the rest is the untouched tail.
    let max_context = 4096usize;
    let room = max_context - 10;
    let prompt: Vec<u32> = (0..(room as u32 - 5)).collect();
    let history: Vec<u32> = Vec::new();
    let fed = build_context(&history, &prompt, 20, max_context);
    assert_eq!(fed.len(), room - 20);
    assert_eq!(prompt.len() - fed.len(), 15);
    assert_eq!(&fed[..], &prompt[15..]);
}

#[test]
fn short_context_is_untouched() {
    let history = vec![1u32, 2];
    let prompt = vec![3u32, 4, 5];
    let fed = build_context(&history, &prompt, 100, 4096);
    assert_eq!(fed, vec![1, 2, 3, 4, 5]);
}

#[test]
fn oversized_generation_budget_drops_everything() {
    // When the tokens still to generate already exceed the whole budget, the
    // context degenerates to empty; that is a valid state, not an error.
    let history: Vec<u32> = Vec::new();
    let prompt = vec![1u32, 2, 3];
    let fed = build_context(&history, &prompt, 5000, 4096);
    assert!(fed.is_empty());
}

#[test]
fn truncation_keeps_a_suffix_across_history_and_prompt() {
    let history: Vec<u32> = (0..4000u32).collect();
    let prompt: Vec<u32> = (4000..4200u32).collect();
    let fed = build_context(&history, &prompt, 200, 4096);
    // budget = 4096 - 10 - 200 = 3886; total = 4200, so 314 leading go.
    assert_eq!(fed.len(), 3886);
    let whole: Vec<u32> = (0..4200u32).collect();
    assert_eq!(&fed[..], &whole[314..]);
}

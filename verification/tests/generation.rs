use ai_engine::config::GenerationConfig;
use ai_engine::engine::TurnEngine;
use ai_engine::rng::SamplerState;
use ai_engine::sampler::{greedy_argmax, sample};
use ai_engine::session::{Prompt, Session};

fn config_with(
    sample_len: usize,
    temperature_milli: u64,
    top_p_milli: Option<u64>,
    seed: u64,
    repeat_penalty_milli: u64,
    repeat_window: usize,
) -> GenerationConfig {
    GenerationConfig::new(
        sample_len,
        temperature_milli,
        top_p_milli,
        seed,
        repeat_penalty_milli,
        repeat_window,
        4096,
        false,
        false,
    )
    .unwrap()
}

fn run_turn(cfg: &GenerationConfig, eos: u32, prompt: &Vec<u32>, oracle: &[Vec<i64>]) -> Vec<u32> {
    let history: Vec<u32> = Vec::new();
    let mut engine = TurnEngine::start(cfg, eos, &history, prompt);
    let mut out: Vec<u32> = Vec::new();
    for logits in oracle {
        let t = engine.step(logits);
        out.push(t.id);
        if t.is_stop {
            break;
        }
    }
    out
}

fn spiked(len: usize, peaks: &[(usize, i64)]) -> Vec<i64> {
    let mut v = vec![0i64; len];
    for &(i, x) in peaks {
        v[i] = x;
    }
    v
}

#[test]
fn greedy_turn_of_five() {
    // temperature 0, sample_len 5, prompt [10, 11]: the forced first token
    // plus exactly 4 greedy-sampled tokens, each the arg-max of its logits.
    let cfg = config_with(5, 0, None, 1, 1000, 64);
    let oracle = vec![
        spiked(8, &[(3, 100)]),
        spiked(8, &[(1, 100)]),
        spiked(8, &[(4, 100)]),
        spiked(8, &[(1, 100)]),
        spiked(8, &[(5, 100)]),
        spiked(8, &[(6, 100)]),
    ];
    let prompt = vec![10u32, 11u32];
    let out = run_turn(&cfg, 99, &prompt, &oracle);
    assert_eq!(out, vec![3, 1, 4, 1, 5]);
    assert_eq!(out.len() - 1, 4);
}

#[test]
fn greedy_budget_is_respected() {
    // However many logit vectors are offered, a turn never emits more than
    // sample_len tokens.
    let cfg = config_with(3, 0, None, 1, 1000, 64);
    let oracle: Vec<Vec<i64>> = (0..10).map(|_| spiked(4, &[(2, 7)])).collect();
    let out = run_turn(&cfg, 99, &vec![1], &oracle);
    assert_eq!(out.len(), 3);
}

#[test]
fn greedy_ties_break_low() {
    let v = spiked(6, &[(2, 50), (4, 50)]);
    assert_eq!(greedy_argmax(&v), 2);
}

#[test]
fn eos_stops_early() {
    // The end-of-sequence id halts the turn the moment it is sampled, well
    // under budget.
    let cfg = config_with(100, 0, None, 1, 1000, 64);
    let eos = 4u32;
    let oracle = vec![
        spiked(8, &[(3, 100)]),
        spiked(8, &[(4, 100)]),
        spiked(8, &[(5, 100)]),
    ];
    let out = run_turn(&cfg, eos, &vec![1], &oracle);
    assert_eq!(out, vec![3, 4]);
}

#[test]
fn repeat_penalty_changes_fourth_pick() {
    // Token 7 is greedily chosen four times in a row with the penalty
    // disabled; with penalty 1.3 over a window of 3 the fourth pick differs.
    let strong = spiked(8, &[(7, 20000), (2, 10000)]);
    let close = spiked(8, &[(7, 13000), (2, 11000)]);
    let oracle = vec![strong.clone(), strong.clone(), strong.clone(), close];

    let plain = config_with(10, 0, None, 1, 1000, 3);
    let out_plain = run_turn(&plain, 99, &vec![1], &oracle);
    assert_eq!(out_plain, vec![7, 7, 7, 7]);

    let penalized = config_with(10, 0, None, 1, 1300, 3);
    let out_pen = run_turn(&penalized, 99, &vec![1], &oracle);
    assert_eq!(&out_pen[0..3], &[7, 7, 7]);
    assert_ne!(out_pen[3], 7);
    assert_eq!(out_pen[3], 2);
}

#[test]
fn seeded_nucleus_runs_are_identical() {
    // seed 42, temperature 0.8, top-p 0.9: two runs over the same prompt and
    // logit stream yield identical token sequences.
    let cfg = config_with(6, 800, Some(900), 42, 1100, 8);
    let oracle: Vec<Vec<i64>> = (0..6)
        .map(|k| spiked(16, &[(k, 3000), (k + 5, 2500), (15, 1000)]))
        .collect();
    let prompt = vec![2u32, 3u32];
    let a = run_turn(&cfg, 99, &prompt, &oracle);
    let b = run_turn(&cfg, 99, &prompt, &oracle);
    assert_eq!(a, b);
    assert_eq!(a.len(), 6);
}

#[test]
fn full_softmax_seeded_runs_are_identical() {
    let cfg = config_with(5, 1500, None, 7, 1000, 0);
    let oracle: Vec<Vec<i64>> = (0..5).map(|k| spiked(12, &[(k + 1, 900)])).collect();
    let a = run_turn(&cfg, 99, &vec![8], &oracle);
    let b = run_turn(&cfg, 99, &vec![8], &oracle);
    assert_eq!(a, b);
}

#[test]
fn penalty_one_matches_disabled_filter() {
    // A penalty of exactly 1.0 produces output identical to bypassing the
    // filter and sampling the raw logits directly.
    let cfg = config_with(8, 700, Some(950), 5, 1000, 16);
    let oracle: Vec<Vec<i64>> = (0..8)
        .map(|k| spiked(10, &[(k, 2000), (9 - k, 1500)]))
        .collect();
    let through_engine = run_turn(&cfg, 99, &vec![1, 2], &oracle);

    let mut rng = SamplerState::new(5);
    let mut direct: Vec<u32> = Vec::new();
    for logits in &oracle {
        if direct.len() >= 8 {
            break;
        }
        let id = sample(logits, &cfg, &mut rng);
        direct.push(id);
        if id == 99 || direct.len() >= 8 {
            break;
        }
    }
    assert_eq!(through_engine, direct);
}

#[test]
fn chat_history_accumulates() {
    // After a Chat turn, the next turn's context is the previous fed context
    // plus everything generated, followed by the new prompt.
    let cfg = config_with(3, 0, None, 1, 1000, 64);
    let mut session = Session::new(&cfg, 99, Prompt::Chat);
    let prompt1 = vec![10u32, 11u32];
    let mut engine = session.start_turn(&prompt1);
    assert_eq!(engine.context, vec![10, 11]);
    let oracle = vec![
        spiked(8, &[(5, 9)]),
        spiked(8, &[(6, 9)]),
        spiked(8, &[(7, 9)]),
    ];
    for logits in &oracle {
        let t = engine.step(logits);
        if t.is_stop {
            break;
        }
    }
    assert_eq!(engine.generated, vec![5, 6, 7]);
    session.finish_turn(&engine);
    assert_eq!(session.turn_count, 1);
    assert_eq!(session.history, vec![10, 11, 5, 6, 7]);

    let prompt2 = vec![12u32];
    let engine2 = session.start_turn(&prompt2);
    assert_eq!(engine2.context, vec![10, 11, 5, 6, 7, 12]);
}

#[test]
fn interactive_mode_keeps_no_history() {
    let cfg = config_with(3, 0, None, 1, 1000, 64);
    let mut session = Session::new(&cfg, 99, Prompt::Interactive);
    let mut engine = session.start_turn(&vec![1u32]);
    let t = engine.step(&spiked(4, &[(2, 5)]));
    assert_eq!(t.id, 2);
    session.finish_turn(&engine);
    assert_eq!(session.turn_count, 1);
    assert!(session.history.is_empty());
}

#[test]
fn next_position_tracks_offsets() {
    // The offset for each single-token forward pass is the cumulative count
    // of tokens already fed: context length for the second pass, and one
    // more for each pass after it.
    let cfg = config_with(4, 0, None, 1, 1000, 64);
    let history: Vec<u32> = Vec::new();
    let mut engine = TurnEngine::start(&cfg, 99, &history, &vec![10, 11, 12]);
    engine.step(&spiked(4, &[(1, 5)]));
    assert_eq!(engine.next_position(), 3);
    engine.step(&spiked(4, &[(2, 5)]));
    assert_eq!(engine.next_position(), 4);
}

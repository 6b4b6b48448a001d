use std::collections::HashMap;

use ai_engine::errors::EngineError;
use ai_engine::tok::{display_token, encode_prompt, session_eos_id};
use tokenizers::models::wordlevel::WordLevel;
use tokenizers::Tokenizer;

fn toy_tokenizer() -> Tokenizer {
    let mut vocab: HashMap<String, u32> = HashMap::new();
    vocab.insert("hello".to_string(), 0);
    vocab.insert("</s>".to_string(), 1);
    vocab.insert("\u{2581}world".to_string(), 2);
    vocab.insert("<0x0A>".to_string(), 3);
    let model = WordLevel::builder()
        .vocab(vocab)
        .unk_token("<missing>".to_string())
        .build()
        .unwrap();
    Tokenizer::new(model)
}

#[test]
fn encoding_round_trips_through_the_vocabulary() {
    let t = toy_tokenizer();
    let (ids, surfaces) = encode_prompt(&t, "hello", false).unwrap();
    assert_eq!(ids, vec![0]);
    assert_eq!(surfaces, vec!["hello".to_string()]);
}

#[test]
fn rejected_input_becomes_an_encoding_failure() {
    // The unknown-token entry is not in the vocabulary, so unknown input is
    // rejected rather than mapped; the turn surfaces the encoding failure.
    let t = toy_tokenizer();
    let r = encode_prompt(&t, "nonsense", false);
    assert_eq!(r.unwrap_err(), EngineError::EncodingFailure);
}

#[test]
fn eos_is_looked_up_from_the_vocabulary() {
    let t = toy_tokenizer();
    assert_eq!(session_eos_id(&t), Some(1));
}

#[test]
fn displayed_tokens_pass_through_the_rendering_rule() {
    let t = toy_tokenizer();
    assert_eq!(display_token(&t, 0), Some("hello".chars().collect()));
    // The reserved placeholder is shown as a space.
    assert_eq!(display_token(&t, 2), Some(" world".chars().collect()));
    // A byte escape is decoded to its character.
    assert_eq!(display_token(&t, 3), Some(vec!['\n']));
    // An id outside the vocabulary displays nothing.
    assert_eq!(display_token(&t, 77), None);
}

use vstd::prelude::*;
use crate::display::{render_spec, render_token};
use crate::errors::EngineError;

verus! {

#[verifier::external_type_specification]
#[verifier::external_body]
pub struct ExTokenizer(tokenizers::Tokenizer);

/// Relies on tokenizers::Tokenizer::encode and Encoding::get_ids /
/// get_tokens: the token ids and their surface strings for a text under the
/// tokenizer's vocabulary, two parallel arrays of one entry per token. What
/// comes back depends on the tokenizer value, so nothing more is assumed of
/// it.
#[verifier::external_body]
fn encode_parts(t: &tokenizers::Tokenizer, text: &str, add_special_tokens: bool) -> (r: Option<
    (Vec<u32>, Vec<String>),
>)
    ensures
        r matches Some(parts) ==> parts.0@.len() == parts.1@.len(),
{
    match t.encode(text, add_special_tokens) {
        Ok(e) => Some((e.get_ids().to_vec(), e.get_tokens().to_vec())),
        Err(_) => None,
    }
}

/// Relies on tokenizers::TokenizerImpl::get_vocab and HashMap::get: the id
/// of a vocabulary entry, if the entry exists.
#[verifier::external_body]
fn vocab_id(t: &tokenizers::Tokenizer, entry: &str) -> (r: Option<u32>) {
    t.get_vocab(true).get(entry).copied()
}

/// Relies on tokenizers::TokenizerImpl::id_to_token: the surface string of
/// a token id, if the id is in the vocabulary, handed out as its characters.
#[verifier::external_body]
fn token_surface(t: &tokenizers::Tokenizer, id: u32) -> (r: Option<Vec<char>>) {
    t.id_to_token(id).map(|s| s.chars().collect())
}

/// Encodes one turn's text: the token ids fed to the context builder and
/// the surface strings shown by the verbose-prompt echo. A rejection by the
/// tokenizer becomes the turn-aborting encoding failure.
pub fn encode_prompt(t: &tokenizers::Tokenizer, text: &str, add_special_tokens: bool) -> (r:
    Result<(Vec<u32>, Vec<String>), EngineError>)
    ensures
        r matches Ok(parts) ==> parts.0@.len() == parts.1@.len(),
        r matches Err(e) ==> e == EngineError::EncodingFailure,
{
    match encode_parts(t, text, add_special_tokens) {
        Some(parts) => Ok(parts),
        None => Err(EngineError::EncodingFailure),
    }
}

/// Looks up the session's end-of-sequence id once, from the vocabulary's
/// end-of-sequence entry.
pub fn session_eos_id(t: &tokenizers::Tokenizer) -> (r: Option<u32>) {
    vocab_id(t, "</s>")
}

/// The display form of one emitted token: its surface string under the
/// rendering rule (placeholder spaces restored, byte escapes decoded, bytes
/// outside the ASCII range suppressed); `None` when the id is unknown or
/// the token is suppressed.
pub fn display_token(t: &tokenizers::Tokenizer, id: u32) -> (r: Option<Vec<char>>)
    ensures
        r matches Some(out) ==> exists|surface: Seq<char>|
            render_spec(surface) == Some(out@),
{
    match token_surface(t, id) {
        Some(surface) => render_token(&surface),
        None => None,
    }
}

} // verus!

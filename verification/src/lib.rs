//! Generation control loop for a quantized causal language model.
//!
//! The model itself is an external collaborator: a forward pass hands back a
//! score (logit) for every vocabulary entry, and this crate decides everything
//! around those calls: how the token context is assembled and truncated, how a
//! token is chosen from the scores, how repetition is damped, when a turn
//! stops, and how multi-turn sessions carry history. Scores are carried as
//! fixed-point integers (thousandths), so the whole policy is verified.

pub mod config;
pub mod context;
pub mod display;
pub mod engine;
pub mod errors;
pub mod meta;
pub mod openai;
pub mod penalty;
pub mod rng;
pub mod sampler;
pub mod session;
pub mod shell;
pub mod sizefmt;
pub mod stopping;
pub mod tok;

use vstd::prelude::*;

verus! {

/// One content fragment of a streamed chat completion.
#[derive(Debug)]
pub struct ChatChunkDelta {
    pub content: Option<String>,
}

/// One choice of a streamed chat completion chunk.
#[derive(Debug)]
pub struct ChatChunkChoice {
    pub delta: ChatChunkDelta,
    pub index: usize,
    pub finish_reason: Option<String>,
}

/// One chunk of a streamed chat completion.
#[derive(Debug)]
pub struct ChatCompletionChunk {
    pub id: String,
    pub object: String,
    pub created: usize,
    pub model: String,
    pub choices: Vec<ChatChunkChoice>,
}

} // verus!

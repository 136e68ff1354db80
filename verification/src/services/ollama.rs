use vstd::prelude::*;

verus! {

/// What a local Ollama server answers to a generation request.
#[derive(Clone, Debug)]
pub struct OllamaResponse {
    pub model: String,
    pub created_at: String,
    pub response: String,
    pub done: bool,
    pub context: Vec<u32>,
    pub total_duration: u64,
    pub load_duration: u64,
    pub prompt_eval_count: u64,
    pub prompt_eval_duration: u64,
    pub eval_count: u64,
    pub eval_duration: u64,
}

/// A generation request to a local Ollama server.
#[derive(Clone, Debug)]
pub struct OllamaChat {
    pub model: String,
    pub prompt: String,
    pub stream: Option<bool>,
}

} // verus!

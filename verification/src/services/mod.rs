pub mod anthropic;
pub mod ollama;

use vstd::prelude::*;

verus! {

/// The services that can extract entities from text.
#[derive(Clone, Copy, Debug, PartialEq, Eq, Structural)]
pub enum EntityExtractionProvider {
    Anthropic,
    Gliner,
    Ollama,
}

/// The services that can classify text.
#[derive(Clone, Copy, Debug, PartialEq, Eq, Structural)]
pub enum TextClassificationProvider {
    Anthropic,
    Ollama,
}

/// A request to extract entities of the given kinds from a text.
#[derive(Clone, Debug)]
pub struct ExtractionRequest {
    pub text: String,
    pub labels: Vec<String>,
}

} // verus!

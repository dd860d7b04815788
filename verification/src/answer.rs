//! Plain records of the API's responses.

use vstd::prelude::*;

verus! {

/// Token usage for one request. Output tokens are not billed.
#[derive(Clone, Copy, Debug, Default, PartialEq, Eq)]
pub struct Usage {
    /// Tokens of state and questions.
    pub input_tokens: u64,
    /// Tokens of the answers.
    pub output_tokens: u64,
}

/// One entry from `GET /v1/models`.
#[derive(Clone, Debug, PartialEq, Eq)]
pub struct ModelInfo {
    /// Model id or alias accepted by the `model` field.
    pub name: String,
    /// What the model is for.
    pub description: String,
    /// When the model was released, as the API writes it.
    pub release_date: String,
}

} // verus!

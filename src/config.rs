//! Configuration records of the tokenizer, the model and the data store.
use vstd::prelude::*;

verus! {

/// Where the tokenizer comes from, and how conversations are marked up for it.
#[derive(Clone, Debug, PartialEq, Eq)]
pub struct TokenizerConfig {
    pub repo: String,
    pub file: String,
    /// The token string that ends a generation.
    pub eos_token: String,
    /// Token strings that generation must never produce.
    pub banned_tokens: Vec<String>,
    pub system_template: String,
    pub user_template: String,
    pub assistant_template: String,
    /// Appended after the rendered conversation to cue the assistant's turn.
    pub start_completion: String,
}

/// Where the model weights come from, and the sampling seed.
#[derive(Clone, Debug, PartialEq, Eq)]
pub struct LlmConfig {
    pub repo: String,
    pub file: String,
    pub branch: String,
    pub seed: u64,
}

/// Where the database file lives and where it can be downloaded from.
#[derive(Clone, Debug, PartialEq, Eq)]
pub struct DbConfig {
    pub url: String,
    pub file: String,
}

} // verus!

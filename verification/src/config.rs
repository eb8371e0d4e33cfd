//! Top-level configuration, loaded from `ironmind.toml` at startup.
use vstd::prelude::*;

verus! {

/// Top-level configuration.
#[derive(Clone, Debug, PartialEq, Eq)]
pub struct Config {
    pub model: ModelConfig,
    pub agent: AgentConfig,
}

/// How the model is loaded and run.
#[derive(Clone, Debug, PartialEq, Eq)]
pub struct ModelConfig {
    /// Path to local model weights (offline: no hub access at runtime).
    pub weights_path: String,
    /// ISQ quantisation level, e.g. "Q4K", "Q6K", "Q8_0".
    pub isq: String,
    /// Enable thinking mode (`/think` in the system prompt).
    pub thinking: bool,
    /// Max tokens to generate per turn.
    pub max_tokens: usize,
}

/// How the agent loop runs.
#[derive(Clone, Copy, Debug, PartialEq, Eq, Structural)]
pub struct AgentConfig {
    /// Max tool-call rounds before giving up.
    pub max_rounds: usize,
}

/// Value of `thinking` when the file leaves it out.
pub fn default_true() -> (b: bool)
    ensures
        b,
{
    true
}

/// Value of `max_tokens` when the file leaves it out.
pub fn default_max_tokens() -> (n: usize)
    ensures
        n == 2048,
{
    2048
}

/// Value of `max_rounds` when the file leaves it out.
pub fn default_max_rounds() -> (n: usize)
    ensures
        n == 20,
{
    20
}

} // verus!

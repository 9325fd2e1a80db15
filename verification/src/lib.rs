//! Execution core of an autonomous LLM agent.
//!
//! The crate covers the agent's "turn" loop: it prepares the tool set and
//! system prompt for a provider call, reconciles token accounting, rewrites
//! prompts and parses replies for providers without native tool calling
//! (the "toolshim"), classifies the resulting tool requests, and tracks a
//! set of concurrently executing subagent tasks, multiplexing their
//! progress into rate-limited notification events.
//!
//! The host loop around the crate performs the actual network and file
//! I/O; every decision and data transformation in here carries a proved
//! contract.

pub mod developer;
pub mod events;
pub mod message;
pub mod pipeline;
pub mod session;
pub mod strutil;
pub mod task;
pub mod toolshim;
pub mod tracker;
pub mod usage;

pub use usage::{accumulate_tokens, ProviderUsage, Usage};

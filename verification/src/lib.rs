//! Resource-tier-aware local chat inference core.
//!
//! The crate selects model artifacts by host memory capacity, drives a
//! deterministic greedy generation loop, keeps bounded per-session chat
//! histories, and augments prompts with similarity-retrieved memory.

pub mod errors;
pub mod tier;
pub mod locator;
pub mod session;
pub mod embedding;
pub mod memory;
pub mod tokenizer;
pub mod generate;
pub mod providers;
pub mod orchestrator;

//! Lifecycle management for a chunked, compressed model artifact: a
//! size-bounded chunk cache with least-recently-used eviction, a manifest
//! driven binding protocol, a quantization quality gate, and a deterministic
//! hash-chained generation engine.

pub mod agent_factory;
pub mod analyzer;
pub mod binding;
pub mod cache;
pub mod digest;
pub mod domain;
pub mod errors;
pub mod guards;
pub mod inference;
pub mod instruction;
pub mod llm;
pub mod memory;
pub mod metrics;
pub mod modelrepo;
pub mod novaq_validation;
pub mod state;
pub mod text;

pub use errors::AgentError;

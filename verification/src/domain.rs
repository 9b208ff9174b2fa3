//! The core data model: agent configuration, health snapshots, inference
//! requests and responses, the model binding record, and memory entries.
//!
//! Fractional configuration values are fixed-point integers:
//! `warm_set_target` is in ten-thousandths (a target of 0.6 is 6000).

use vstd::prelude::*;

verus! {

/// Agent configuration.
#[derive(Debug, Clone)]
pub struct AgentConfig {
    /// Ten-thousandths of the warm-set target fraction.
    pub warm_set_target: u32,
    /// How many chunks a bind eagerly loads.
    pub prefetch_depth: u32,
    pub max_tokens: u32,
    pub concurrency_limit: u32,
    pub ttl_seconds: u64,
    /// The repository address; empty when not configured.
    pub model_repo_canister_id: String,
}

impl Default for AgentConfig {
    fn default() -> (r: Self)
        ensures
            r.warm_set_target == 6000,
            r.prefetch_depth == 2,
            r.max_tokens == 2048,
            r.concurrency_limit == 4,
            r.ttl_seconds == 3600,
            r.model_repo_canister_id@ == Seq::<char>::empty(),
    {
        AgentConfig {
            warm_set_target: 6000,
            prefetch_depth: 2,
            max_tokens: 2048,
            concurrency_limit: 4,
            ttl_seconds: 3600,
            model_repo_canister_id: String::new(),
        }
    }
}

/// A read-only health snapshot. The hit rate is reported as its two
/// counters and the warm-set utilization as used bytes over the budget, so
/// that both fractions are exact.
#[derive(Debug, Clone)]
pub struct AgentHealth {
    pub model_bound: bool,
    pub cache_hits: u64,
    pub cache_misses: u64,
    /// Bytes resident in the chunk cache.
    pub warm_set_used: usize,
    /// The chunk cache byte budget.
    pub warm_set_budget: usize,
    pub queue_depth: u32,
    pub last_inference_timestamp: u64,
}

/// Decode parameters of a generation request. Only bounded, discrete
/// parameters are modelled; the deterministic engine reads `max_tokens`.
#[derive(Debug, Clone)]
pub struct DecodeParams {
    pub max_tokens: Option<u32>,
    pub top_k: Option<u32>,
}

impl Default for DecodeParams {
    fn default() -> (r: Self)
        ensures
            r.max_tokens == Some(512u32),
            r.top_k == Some(50u32),
    {
        DecodeParams { max_tokens: Some(512), top_k: Some(50) }
    }
}

/// An inference request.
#[derive(Debug, Clone)]
pub struct InferenceRequest {
    pub seed: u64,
    pub prompt: String,
    pub decode_params: DecodeParams,
    pub msg_id: String,
}

/// An inference response: the token stream and advisory cache counters.
#[derive(Debug, Clone)]
pub struct InferenceResponse {
    pub tokens: Vec<String>,
    pub generated_text: String,
    pub inference_time_ms: u64,
    pub cache_hits: u32,
    pub cache_misses: u32,
}

/// The record that a model is the one currently staged for generation.
/// `chunks_loaded` never decreases and never exceeds `total_chunks`.
#[derive(Debug, Clone)]
pub struct ModelBinding {
    pub model_id: String,
    pub bound_at: u64,
    pub manifest_digest: String,
    pub chunks_loaded: u32,
    pub total_chunks: u32,
    pub version: String,
}

/// One stored memory entry.
#[derive(Debug, Clone)]
pub struct MemoryEntry {
    pub key: String,
    pub data: Vec<u8>,
    pub created_at: u64,
    pub expires_at: u64,
    pub encrypted: bool,
}

} // verus!

//! The explicit process state: configuration, the single current binding
//! and manifest, the chunk cache, the memory store, and cumulative
//! counters. Every operation takes this state by reference; there are no
//! ambient globals.

use vstd::prelude::*;

use crate::cache::CacheService;
use crate::domain::AgentConfig;
use crate::domain::ModelBinding;
use crate::memory::MemoryService;
use crate::modelrepo::ModelManifest;

verus! {

/// Cumulative counters of the process.
#[derive(Debug, Clone)]
pub struct AgentMetrics {
    pub total_inferences: u64,
    pub cache_hits: u64,
    pub cache_misses: u64,
    pub last_activity: u64,
}

impl Default for AgentMetrics {
    fn default() -> (r: Self)
        ensures
            r.total_inferences == 0,
            r.cache_hits == 0,
            r.cache_misses == 0,
            r.last_activity == 0,
    {
        AgentMetrics { total_inferences: 0, cache_hits: 0, cache_misses: 0, last_activity: 0 }
    }
}

/// The whole process state.
pub struct AgentState {
    pub config: AgentConfig,
    pub binding: Option<ModelBinding>,
    pub manifest: Option<ModelManifest>,
    pub cache: CacheService,
    pub memory: MemoryService,
    pub metrics: AgentMetrics,
}

impl AgentState {
    /// Well-formedness: the cache accounts honestly, binding and manifest
    /// come and go together, and the binding record is consistent with the
    /// manifest it was committed against: `chunks_loaded` never exceeds
    /// `total_chunks`, which counts the manifest's chunks.
    pub open spec fn wf(self) -> bool {
        &&& self.cache.wf()
        &&& (self.binding is Some <==> self.manifest is Some)
        &&& (self.binding is Some ==> {
            let b = self.binding.unwrap();
            let m = self.manifest.unwrap();
            &&& b.chunks_loaded <= b.total_chunks
            &&& b.total_chunks == m.chunks@.len()
            &&& b.model_id@ == m.model_id@
        })
    }

    /// A fresh state: default configuration, nothing bound, an empty cache
    /// with the default budget, an empty memory store, zero counters.
    pub fn new() -> (r: AgentState)
        ensures
            r.wf(),
            r.binding is None,
            r.manifest is None,
            r.config.model_repo_canister_id@ == Seq::<char>::empty(),
            r.config.prefetch_depth == 2,
            r.cache.view_entries() == Seq::<crate::cache::CacheEntry>::empty(),
            r.memory.view_entries() == Seq::<crate::domain::MemoryEntry>::empty(),
            r.metrics.cache_hits == 0,
            r.metrics.cache_misses == 0,
            r.metrics.total_inferences == 0,
            r.metrics.last_activity == 0,
    {
        AgentState {
            config: AgentConfig::default(),
            binding: None,
            manifest: None,
            cache: CacheService::with_default_budget(),
            memory: MemoryService::new(),
            metrics: AgentMetrics::default(),
        }
    }
}

} // verus!

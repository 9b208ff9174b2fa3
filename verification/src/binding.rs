//! The binding manager: manifest-gated, chunk-by-chunk staging of a model
//! into the cache, committed atomically.
//!
//! Fetching manifests and chunks suspends on the host's transport, so a
//! bind or prefetch is split into a session: the host fetches what
//! [`BindSession::next_chunk_id`] asks for and hands the bytes to
//! `accept_chunk`, which touches nothing but the chunk cache. Only `commit`
//! — a single non-suspending step, reached only when every planned chunk
//! has arrived — replaces the manifest and binding. Dropping a session
//! mid-way therefore leaves the previous binding exactly as it was: chunks
//! fetched before a failure stay cached, and nothing else moves.

use vstd::prelude::*;

use crate::cache::entry_key;
use crate::cache::evict_to_fit;
use crate::cache::remove_key;
use crate::domain::AgentConfig;
use crate::domain::AgentHealth;
use crate::domain::ModelBinding;
use crate::errors::AgentError;
use crate::modelrepo::ModelManifest;
use crate::modelrepo::ModelState;
use crate::state::AgentState;

verus! {

/// What `accept_chunk` does: the chunk's bytes enter the cache under its
/// id, after the usual eviction, and nothing else about the state moves.
pub open spec fn chunk_accepted(
    pre: AgentState,
    post: AgentState,
    key: Seq<char>,
    bytes: Seq<u8>,
    now: u64,
) -> bool {
    &&& post.binding == pre.binding
    &&& post.manifest == pre.manifest
    &&& post.config == pre.config
    &&& post.memory == pre.memory
    &&& post.metrics == pre.metrics
    &&& post.cache.budget() == pre.cache.budget()
    &&& {
        let cv = post.cache.view_entries();
        let fitted = evict_to_fit(
            remove_key(pre.cache.view_entries(), key),
            bytes.len() as int,
            pre.cache.budget() as int,
        );
        &&& cv.len() == fitted.len() + 1
        &&& cv.drop_last() == fitted
        &&& entry_key(cv.last()) == key
        &&& cv.last().data@ == bytes
        &&& cv.last().last_accessed == now
        &&& cv.last().access_count == 1
    }
}

/// An in-flight bind: the manifest has been fetched and verified Active,
/// and the first `planned` chunks are being staged.
#[derive(Debug)]
pub struct BindSession {
    model_id: String,
    manifest: ModelManifest,
    planned: u32,
    loaded: u32,
}

impl BindSession {
    /// The manifest this session was opened against.
    pub closed spec fn spec_manifest(self) -> ModelManifest {
        self.manifest
    }

    /// The exact model id value the session will commit.
    pub closed spec fn spec_model_id(self) -> String {
        self.model_id
    }

    /// How many chunks the session stages before it may commit.
    pub closed spec fn planned(self) -> u32 {
        self.planned
    }

    /// How many chunks have been staged so far.
    pub closed spec fn loaded(self) -> u32 {
        self.loaded
    }

    /// Internal consistency: an Active manifest, a plan within it, and a
    /// progress count within the plan.
    pub closed spec fn wf(self) -> bool {
        &&& self.manifest.state is Active
        &&& self.model_id@ == self.manifest.model_id@
        &&& self.manifest.chunks@.len() <= u32::MAX
        &&& self.planned <= self.manifest.chunks@.len()
        &&& self.loaded <= self.planned
    }

    /// The id of the chunk to fetch next, or `None` when every planned
    /// chunk has been staged.
    pub fn next_chunk_id(&self) -> (r: Option<String>)
        requires
            self.wf(),
        ensures
            r is Some <==> self.loaded() < self.planned(),
            r is Some ==> r.unwrap()@ == self.spec_manifest().chunks@[self.loaded() as int].id@,
    {
        if self.loaded < self.planned {
            Some(self.manifest.chunks[self.loaded as usize].id.clone())
        } else {
            None
        }
    }

    /// Stages the bytes of the chunk `next_chunk_id` asked for: they enter
    /// the shared chunk cache, and nothing else — in particular neither the
    /// current binding nor the current manifest — is touched. A session
    /// abandoned after any number of such steps leaves the previous binding
    /// exactly as it was.
    pub fn accept_chunk(&mut self, state: &mut AgentState, bytes: Vec<u8>, now: u64) -> (r: Result<
        (),
        AgentError,
    >)
        requires
            old(self).wf(),
            old(self).loaded() < old(self).planned(),
            old(state).wf(),
        ensures
            r is Ok,
            final(self).wf(),
            final(self).loaded() == old(self).loaded() + 1,
            final(self).planned() == old(self).planned(),
            final(self).spec_manifest() == old(self).spec_manifest(),
            final(self).spec_model_id() == old(self).spec_model_id(),
            final(state).wf(),
            chunk_accepted(
                *old(state),
                *final(state),
                old(self).spec_manifest().chunks@[old(self).loaded() as int].id@,
                bytes@,
                now,
            ),
    {
        let id = self.manifest.chunks[self.loaded as usize].id.clone();
        let ghost pre_cache = state.cache.view_entries();
        let ghost pre_budget = state.cache.budget();
        let _ = state.cache.put(id, bytes, now);
        self.loaded = self.loaded + 1;
        proof {
            let cv = state.cache.view_entries();
            let fitted = evict_to_fit(
                remove_key(pre_cache, id@),
                bytes@.len() as int,
                pre_budget as int,
            );
            assert(cv.drop_last() =~= fitted);
            assert(cv.last() == cv[cv.len() - 1]);
        }
        Ok(())
    }

    /// Whether every planned chunk has been staged.
    pub fn is_complete(&self) -> (r: bool)
        ensures
            r == (self.loaded() == self.planned()),
    {
        self.loaded == self.planned
    }

    /// Commits the bind: in one non-suspending step the process's manifest
    /// and binding are replaced wholesale with the new model's, with
    /// `chunks_loaded` set to what was actually staged. Nothing else moves
    /// but the activity timestamp.
    pub fn commit(self, state: &mut AgentState, now: u64) -> (r: Result<(), AgentError>)
        requires
            self.wf(),
            self.loaded() == self.planned(),
            old(state).wf(),
        ensures
            r is Ok,
            final(state).wf(),
            final(state).manifest == Some(self.spec_manifest()),
            final(state).binding is Some,
            ({
                let b = final(state).binding.unwrap();
                &&& b.model_id == self.spec_model_id()
                &&& b.bound_at == now
                &&& b.manifest_digest == self.spec_manifest().digest
                &&& b.chunks_loaded == self.planned()
                &&& b.total_chunks == self.spec_manifest().chunks@.len()
                &&& b.version == self.spec_manifest().version
            }),
            final(state).cache == old(state).cache,
            final(state).config == old(state).config,
            final(state).memory == old(state).memory,
            final(state).metrics.last_activity == now,
            final(state).metrics.cache_hits == old(state).metrics.cache_hits,
            final(state).metrics.cache_misses == old(state).metrics.cache_misses,
            final(state).metrics.total_inferences == old(state).metrics.total_inferences,
    {
        let BindSession { model_id, manifest, planned, loaded: _ } = self;
        let total_chunks = manifest.chunks.len() as u32;
        let binding = ModelBinding {
            model_id,
            bound_at: now,
            manifest_digest: manifest.digest.clone(),
            chunks_loaded: planned,
            total_chunks,
            version: manifest.version.clone(),
        };
        state.manifest = Some(manifest);
        state.binding = Some(binding);
        state.metrics.last_activity = now;
        Ok(())
    }
}

/// An in-flight prefetch: up to `n` further chunks, starting at the current
/// `chunks_loaded` offset, are being staged.
#[derive(Debug)]
pub struct PrefetchSession {
    ids: Vec<String>,
    start: u32,
    accepted: u32,
}

impl PrefetchSession {
    /// The `chunks_loaded` offset the session was planned at.
    pub closed spec fn start(self) -> u32 {
        self.start
    }

    /// How many chunks the session stages.
    pub closed spec fn count(self) -> u32 {
        self.ids@.len() as u32
    }

    /// How many chunks have been staged so far.
    pub closed spec fn accepted(self) -> u32 {
        self.accepted
    }

    /// The ids of the planned chunks.
    pub closed spec fn spec_ids(self) -> Seq<Seq<char>> {
        Seq::new(self.ids@.len(), |i: int| self.ids@[i]@)
    }

    pub closed spec fn wf(self) -> bool {
        &&& self.ids@.len() <= u32::MAX
        &&& self.accepted <= self.ids@.len()
        &&& self.start + self.ids@.len() <= u32::MAX
    }

    /// The id of the chunk to fetch next, or `None` when every planned
    /// chunk has been staged.
    pub fn next_chunk_id(&self) -> (r: Option<String>)
        requires
            self.wf(),
        ensures
            r is Some <==> self.accepted() < self.count(),
            r is Some ==> r.unwrap()@ == self.spec_ids()[self.accepted() as int],
    {
        if (self.accepted as usize) < self.ids.len() {
            Some(self.ids[self.accepted as usize].clone())
        } else {
            None
        }
    }

    /// Stages the bytes of the chunk `next_chunk_id` asked for, exactly as
    /// [`BindSession::accept_chunk`] does: only the chunk cache moves.
    pub fn accept_chunk(&mut self, state: &mut AgentState, bytes: Vec<u8>, now: u64) -> (r: Result<
        (),
        AgentError,
    >)
        requires
            old(self).wf(),
            old(self).accepted() < old(self).count(),
            old(state).wf(),
        ensures
            r is Ok,
            final(self).wf(),
            final(self).accepted() == old(self).accepted() + 1,
            final(self).count() == old(self).count(),
            final(self).start() == old(self).start(),
            final(self).spec_ids() == old(self).spec_ids(),
            final(state).wf(),
            chunk_accepted(
                *old(state),
                *final(state),
                old(self).spec_ids()[old(self).accepted() as int],
                bytes@,
                now,
            ),
    {
        let id = self.ids[self.accepted as usize].clone();
        let ghost pre_cache = state.cache.view_entries();
        let ghost pre_budget = state.cache.budget();
        let _ = state.cache.put(id, bytes, now);
        self.accepted = self.accepted + 1;
        proof {
            assert(self.spec_ids() =~= old(self).spec_ids());
            let cv = state.cache.view_entries();
            let fitted = evict_to_fit(
                remove_key(pre_cache, id@),
                bytes@.len() as int,
                pre_budget as int,
            );
            assert(cv.drop_last() =~= fitted);
            assert(cv.last() == cv[cv.len() - 1]);
        }
        Ok(())
    }

    /// Whether every planned chunk has been staged.
    pub fn is_complete(&self) -> (r: bool)
        requires
            self.wf(),
        ensures
            r == (self.accepted() == self.count()),
    {
        self.accepted as usize == self.ids.len()
    }

    /// Commits the prefetch: `chunks_loaded` grows by the count actually
    /// staged, capped at `total_chunks`, and never decreases. Nothing else
    /// moves.
    pub fn commit(self, state: &mut AgentState) -> (r: Result<u32, AgentError>)
        requires
            self.wf(),
            self.accepted() == self.count(),
            old(state).wf(),
        ensures
            r is Ok,
            r.unwrap() == self.count(),
            final(state).wf(),
            final(state).manifest == old(state).manifest,
            final(state).config == old(state).config,
            final(state).cache == old(state).cache,
            final(state).memory == old(state).memory,
            final(state).metrics == old(state).metrics,
            final(state).binding is Some <==> old(state).binding is Some,
            old(state).binding is None ==> final(state).binding == old(state).binding,
            old(state).binding is Some ==> ({
                let b = old(state).binding.unwrap();
                let b2 = final(state).binding.unwrap();
                &&& b2.model_id == b.model_id
                &&& b2.bound_at == b.bound_at
                &&& b2.manifest_digest == b.manifest_digest
                &&& b2.total_chunks == b.total_chunks
                &&& b2.version == b.version
                &&& b2.chunks_loaded == (if b.chunks_loaded + self.count() <= b.total_chunks {
                    (b.chunks_loaded + self.count()) as u32
                } else {
                    b.total_chunks
                })
                &&& b2.chunks_loaded >= b.chunks_loaded
            }),
    {
        let loaded = self.ids.len() as u32;
        match &mut state.binding {
            None => {},
            Some(b) => {
                let grown = b.chunks_loaded.saturating_add(loaded);
                b.chunks_loaded = if grown <= b.total_chunks {
                    grown
                } else {
                    b.total_chunks
                };
            },
        }
        Ok(loaded)
    }
}

/// The binding manager's non-suspending surface.
pub struct BindingService;

impl BindingService {
    /// The configured repository address, or `NotConfigured` when none has
    /// been set. A bind or prefetch asks this first, before any fetch.
    pub fn repo_canister(state: &AgentState) -> (r: Result<String, AgentError>)
        ensures
            r is Ok <==> state.config.model_repo_canister_id@.len() > 0,
            r is Err ==> r->Err_0 == AgentError::NotConfigured,
            r is Ok ==> r.unwrap()@ == state.config.model_repo_canister_id@,
    {
        if state.config.model_repo_canister_id.as_str().unicode_len() == 0 {
            Err(AgentError::NotConfigured)
        } else {
            Ok(state.config.model_repo_canister_id.clone())
        }
    }

    /// Gates a fetched manifest: only an `Active` manifest opens a bind
    /// session, and a `Pending` or `Deprecated` one is refused with
    /// `NotActive` before anything — binding, manifest, cache — is touched.
    /// On success the session plans the first `prefetch_depth` chunks, or
    /// as many as the manifest has.
    pub fn on_manifest(state: &AgentState, manifest: ModelManifest) -> (r: Result<
        BindSession,
        AgentError,
    >)
        requires
            manifest.chunks@.len() <= u32::MAX,
        ensures
            r is Ok <==> manifest.state is Active,
            r is Err ==> r->Err_0 == AgentError::NotActive,
            r is Ok ==> ({
                let ses = r.unwrap();
                &&& ses.wf()
                &&& ses.spec_manifest() == manifest
                &&& ses.loaded() == 0
                &&& ses.planned() == (if state.config.prefetch_depth <= manifest.chunks@.len() {
                    state.config.prefetch_depth as int
                } else {
                    manifest.chunks@.len() as int
                })
            }),
    {
        match manifest.state {
            ModelState::Active => {},
            _ => {
                return Err(AgentError::NotActive);
            },
        }
        let available = manifest.chunks.len();
        let planned: u32 = if (state.config.prefetch_depth as usize) <= available {
            state.config.prefetch_depth
        } else {
            available as u32
        };
        let model_id = manifest.model_id.clone();
        Ok(BindSession { model_id, manifest, planned, loaded: 0 })
    }

    /// Plans a prefetch of up to `n` further chunks: refused with
    /// `NotConfigured` when no repository is set and with `NoBinding` when
    /// no model is bound; otherwise the session covers the chunks from the
    /// current `chunks_loaded` offset, as many as `n` and the manifest
    /// allow.
    pub fn start_prefetch(state: &AgentState, n: u32) -> (r: Result<PrefetchSession, AgentError>)
        requires
            state.wf(),
        ensures
            state.config.model_repo_canister_id@.len() == 0 ==> r is Err && r->Err_0
                == AgentError::NotConfigured,
            state.config.model_repo_canister_id@.len() > 0 && state.binding is None ==> r is Err
                && r->Err_0 == AgentError::NoBinding,
            state.config.model_repo_canister_id@.len() > 0 && state.binding is Some ==> ({
                let b = state.binding.unwrap();
                let m = state.manifest.unwrap();
                let avail = b.total_chunks - b.chunks_loaded;
                &&& r is Ok
                &&& r.unwrap().wf()
                &&& r.unwrap().accepted() == 0
                &&& r.unwrap().start() == b.chunks_loaded
                &&& r.unwrap().count() == (if n <= avail {
                    n as int
                } else {
                    avail as int
                })
                &&& forall|i: int|
                    0 <= i < r.unwrap().count() ==> r.unwrap().spec_ids()[i] == m.chunks@[(
                    b.chunks_loaded + i) as int].id@
            }),
    {
        if state.config.model_repo_canister_id.as_str().unicode_len() == 0 {
            return Err(AgentError::NotConfigured);
        }
        let (start, count): (u32, u32) = match &state.binding {
            None => {
                return Err(AgentError::NoBinding);
            },
            Some(b) => {
                let avail = b.total_chunks - b.chunks_loaded;
                (b.chunks_loaded, if n <= avail {
                    n
                } else {
                    avail
                })
            },
        };
        let manifest = match &state.manifest {
            None => {
                return Err(AgentError::NoBinding);
            },
            Some(m) => m,
        };
        let mut ids: Vec<String> = Vec::new();
        let count_us = count as usize;
        for k in 0..count_us
            invariant
                count_us == count as int,
                start + count <= manifest.chunks@.len() <= u32::MAX,
                ids@.len() == k,
                forall|i: int| 0 <= i < k ==> ids@[i]@ == manifest.chunks@[start + i].id@,
        {
            ids.push(manifest.chunks[start as usize + k].id.clone());
        }
        let ses = PrefetchSession { ids, start, accepted: 0 };
        proof {
            assert(forall|i: int| 0 <= i < count ==> ses.spec_ids()[i] == manifest.chunks@[(
            start + i) as int].id@);
        }
        Ok(ses)
    }

    /// Replaces the configuration.
    pub fn set_config(state: &mut AgentState, config: AgentConfig) -> (r: Result<(), AgentError>)
        requires
            old(state).wf(),
        ensures
            r is Ok,
            final(state).wf(),
            final(state).config == config,
            final(state).binding == old(state).binding,
            final(state).manifest == old(state).manifest,
            final(state).cache == old(state).cache,
            final(state).memory == old(state).memory,
            final(state).metrics == old(state).metrics,
    {
        state.config = config;
        Ok(())
    }

    /// A copy of the configuration.
    pub fn get_config(state: &AgentState) -> (r: Result<AgentConfig, AgentError>)
        ensures
            r is Ok,
            ({
                let c = r.unwrap();
                &&& c.warm_set_target == state.config.warm_set_target
                &&& c.prefetch_depth == state.config.prefetch_depth
                &&& c.max_tokens == state.config.max_tokens
                &&& c.concurrency_limit == state.config.concurrency_limit
                &&& c.ttl_seconds == state.config.ttl_seconds
                &&& c.model_repo_canister_id@ == state.config.model_repo_canister_id@
            }),
    {
        Ok(
            AgentConfig {
                warm_set_target: state.config.warm_set_target,
                prefetch_depth: state.config.prefetch_depth,
                max_tokens: state.config.max_tokens,
                concurrency_limit: state.config.concurrency_limit,
                ttl_seconds: state.config.ttl_seconds,
                model_repo_canister_id: state.config.model_repo_canister_id.clone(),
            },
        )
    }

    /// A read-only health snapshot: whether a model is bound, the
    /// cumulative hit and miss counters, the exact warm-set utilization as
    /// used bytes over the budget, and the last activity instant.
    pub fn get_health(state: &AgentState) -> (r: AgentHealth)
        requires
            state.wf(),
        ensures
            r.model_bound == (state.binding is Some),
            r.cache_hits == state.metrics.cache_hits,
            r.cache_misses == state.metrics.cache_misses,
            r.warm_set_used == crate::cache::sum_sizes(state.cache.view_entries()),
            r.warm_set_budget == state.cache.budget(),
            r.queue_depth == 0,
            r.last_inference_timestamp == state.metrics.last_activity,
    {
        let (used, budget) = state.cache.utilization();
        AgentHealth {
            model_bound: state.binding.is_some(),
            cache_hits: state.metrics.cache_hits,
            cache_misses: state.metrics.cache_misses,
            warm_set_used: used,
            warm_set_budget: budget,
            queue_depth: 0,
            last_inference_timestamp: state.metrics.last_activity,
        }
    }
}


/// Monotonic prefetch: however many chunks a committed prefetch staged, the
/// binding's `chunks_loaded` never decreases and never exceeds
/// `total_chunks` — the very update [`PrefetchSession::commit`] performs.
pub proof fn lemma_prefetch_monotone(b: ModelBinding, count: u32)
    requires
        b.chunks_loaded <= b.total_chunks,
    ensures
        ({
            let after: int = if b.chunks_loaded + count <= b.total_chunks {
                b.chunks_loaded + count
            } else {
                b.total_chunks as int
            };
            b.chunks_loaded <= after <= b.total_chunks
        }),
{
}

} // verus!


use ohms_agent::binding::BindingService;
use ohms_agent::domain::AgentConfig;
use ohms_agent::errors::AgentError;
use ohms_agent::modelrepo::ChunkInfo;
use ohms_agent::modelrepo::ModelManifest;
use ohms_agent::modelrepo::ModelState;
use ohms_agent::state::AgentState;

fn chunk(id: &str, offset: u64, size: u64) -> ChunkInfo {
    ChunkInfo {
        id: id.to_string(),
        offset,
        size,
        sha256: String::new(),
    }
}

fn manifest(model_id: &str, n_chunks: usize, state: ModelState) -> ModelManifest {
    let chunks = (0..n_chunks)
        .map(|i| chunk(&format!("{}-c{}", model_id, i), (i as u64) * 4, 4))
        .collect();
    ModelManifest {
        model_id: model_id.to_string(),
        version: "1.0".to_string(),
        chunks,
        digest: format!("{}-digest", model_id),
        state,
        uploaded_at: 1,
        activated_at: Some(2),
    }
}

fn configured_state(prefetch_depth: u32) -> AgentState {
    let mut state = AgentState::new();
    let config = AgentConfig {
        prefetch_depth,
        model_repo_canister_id: "repo-1".to_string(),
        ..AgentConfig::default()
    };
    BindingService::set_config(&mut state, config).unwrap();
    state
}

/// Drives a whole bind to completion, handing each requested chunk's bytes
/// over, the way the host's fetch loop would.
fn bind_all(state: &mut AgentState, m: ModelManifest, now: u64) -> Result<(), AgentError> {
    let mut session = BindingService::on_manifest(state, m)?;
    while let Some(_id) = session.next_chunk_id() {
        session.accept_chunk(state, vec![7; 4], now)?;
    }
    session.commit(state, now)
}

#[test]
fn test_bind_commits_manifest_and_binding() {
    let mut state = configured_state(2);
    bind_all(&mut state, manifest("m1", 5, ModelState::Active), 10).unwrap();
    let b = state.binding.as_ref().expect("bound");
    assert_eq!(b.model_id, "m1");
    assert_eq!(b.bound_at, 10);
    assert_eq!(b.manifest_digest, "m1-digest");
    assert_eq!(b.chunks_loaded, 2);
    assert_eq!(b.total_chunks, 5);
    assert_eq!(b.version, "1.0");
    assert!(state.cache.contains_key("m1-c0"));
    assert!(state.cache.contains_key("m1-c1"));
    assert!(!state.cache.contains_key("m1-c2"));
    let health = BindingService::get_health(&state);
    assert!(health.model_bound);
    assert_eq!(health.last_inference_timestamp, 10);
}

#[test]
fn test_bind_plans_at_most_the_manifest() {
    // A prefetch depth beyond the manifest loads what the manifest has.
    let mut state = configured_state(8);
    bind_all(&mut state, manifest("m1", 3, ModelState::Active), 5).unwrap();
    let b = state.binding.as_ref().unwrap();
    assert_eq!(b.chunks_loaded, 3);
    assert_eq!(b.total_chunks, 3);
}

#[test]
fn test_manifest_gating_rejects_pending() {
    // A Pending manifest is refused with NotActive and nothing changes.
    let mut state = configured_state(2);
    let r = BindingService::on_manifest(&state, manifest("m1", 2, ModelState::Pending));
    assert_eq!(r.err().map(|s| s), Some(AgentError::NotActive));
    assert!(state.binding.is_none());
    assert!(state.manifest.is_none());

    // The same against an existing binding leaves it untouched.
    bind_all(&mut state, manifest("m0", 1, ModelState::Active), 1).unwrap();
    let r = BindingService::on_manifest(&state, manifest("m1", 2, ModelState::Deprecated));
    assert!(r.is_err());
    assert_eq!(state.binding.as_ref().unwrap().model_id, "m0");
}

#[test]
fn test_bind_abort_leaves_previous_binding() {
    // A bind of m1 that fails at chunk fetch 3 of 5 leaves the binding as
    // it was; chunks staged before the failure stay cached.
    let mut state = configured_state(5);
    bind_all(&mut state, manifest("m0", 1, ModelState::Active), 1).unwrap();
    let before_digest = state.binding.as_ref().unwrap().manifest_digest.clone();

    let mut session =
        BindingService::on_manifest(&state, manifest("m1", 5, ModelState::Active)).unwrap();
    assert_eq!(session.next_chunk_id().as_deref(), Some("m1-c0"));
    session.accept_chunk(&mut state, vec![1; 4], 2).unwrap();
    assert_eq!(session.next_chunk_id().as_deref(), Some("m1-c1"));
    session.accept_chunk(&mut state, vec![2; 4], 3).unwrap();
    // Fetch 3 of 5 fails: the session is dropped before completion.
    assert!(!session.is_complete());
    drop(session);

    let b = state.binding.as_ref().unwrap();
    assert_eq!(b.model_id, "m0");
    assert_eq!(b.manifest_digest, before_digest);
    assert_eq!(b.chunks_loaded, 1);
    assert_eq!(state.manifest.as_ref().unwrap().model_id, "m0");
    // The two staged chunks remain cached as a documented side effect.
    assert!(state.cache.contains_key("m1-c0"));
    assert!(state.cache.contains_key("m1-c1"));
}

#[test]
fn test_prefetch_monotonic_and_bounded() {
    // chunks_loaded never decreases and never exceeds total_chunks across
    // a bind followed by any sequence of prefetches.
    let mut state = configured_state(2);
    bind_all(&mut state, manifest("m1", 5, ModelState::Active), 1).unwrap();
    let mut last = state.binding.as_ref().unwrap().chunks_loaded;
    assert_eq!(last, 2);

    for n in [2u32, 10, 3] {
        let mut session = BindingService::start_prefetch(&state, n).unwrap();
        while let Some(_id) = session.next_chunk_id() {
            session.accept_chunk(&mut state, vec![7; 4], 9).unwrap();
        }
        session.commit(&mut state).unwrap();
        let b = state.binding.as_ref().unwrap();
        assert!(b.chunks_loaded >= last);
        assert!(b.chunks_loaded <= b.total_chunks);
        last = b.chunks_loaded;
    }
    assert_eq!(last, 5);
    assert!(state.cache.contains_key("m1-c4"));
}

#[test]
fn test_prefetch_requires_configuration_and_binding() {
    let state = AgentState::new();
    assert_eq!(
        BindingService::start_prefetch(&state, 1).unwrap_err(),
        AgentError::NotConfigured
    );
    let state = configured_state(2);
    assert_eq!(
        BindingService::start_prefetch(&state, 1).unwrap_err(),
        AgentError::NoBinding
    );
}

#[test]
fn test_repo_canister_configuration() {
    let state = AgentState::new();
    let err = BindingService::repo_canister(&state).unwrap_err();
    assert_eq!(err, AgentError::NotConfigured);
    assert_eq!(err.message(), "model repository not configured");
    let state = configured_state(2);
    assert_eq!(BindingService::repo_canister(&state).unwrap(), "repo-1");
}

#[test]
fn test_get_config_round_trip() {
    let state = configured_state(7);
    let c = BindingService::get_config(&state).unwrap();
    assert_eq!(c.prefetch_depth, 7);
    assert_eq!(c.model_repo_canister_id, "repo-1");
    assert_eq!(c.warm_set_target, 6000);
    assert_eq!(c.max_tokens, 2048);
    assert_eq!(c.concurrency_limit, 4);
    assert_eq!(c.ttl_seconds, 3600);
}

#[test]
fn test_health_reports_utilization_exactly() {
    let mut state = configured_state(1);
    bind_all(&mut state, manifest("m1", 1, ModelState::Active), 1).unwrap();
    let health = BindingService::get_health(&state);
    assert_eq!(health.warm_set_used, 4);
    assert_eq!(health.queue_depth, 0);
    assert_eq!(health.cache_hits, 0);
    assert_eq!(health.cache_misses, 0);
}

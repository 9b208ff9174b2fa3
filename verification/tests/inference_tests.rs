use ohms_agent::domain::DecodeParams;
use ohms_agent::domain::InferenceRequest;
use ohms_agent::inference::InferenceService;
use ohms_agent::state::AgentState;

fn params(max_tokens: Option<u32>) -> DecodeParams {
    DecodeParams {
        max_tokens,
        top_k: Some(50),
    }
}

fn state_with(entries: &[(&str, Vec<u8>)]) -> AgentState {
    let mut state = AgentState::new();
    let mut now = 1u64;
    for (key, data) in entries {
        state.cache.put(key.to_string(), data.clone(), now).unwrap();
        now += 1;
    }
    state
}

#[test]
fn test_generate_known_token_stream() {
    // With an empty cache the seed is the hash of the prompt alone; the
    // first rounds of the chain are pinned byte for byte.
    let mut state = state_with(&[]);
    let r = InferenceService::generate(&mut state, "hello", &params(Some(5)), 1);
    let expected = vec![
        "~9595c9df90075148".to_string(),
        "~eb06860365df3358".to_string(),
        "~4b75bff782a510c6".to_string(),
        "~cd4883a419833d50".to_string(),
        "~6c92efed736019d9".to_string(),
    ];
    assert_eq!(r.tokens, expected);
    assert_eq!(r.generated_text, expected.concat());
    assert_eq!(r.cache_hits, 0);
    assert_eq!(r.cache_misses, 0);
}

#[test]
fn test_generate_deterministic() {
    // Fixed prompt, fixed cache snapshot, fixed count: two invocations give
    // byte-identical tokens and text, though each one touches recency state.
    let mut state = state_with(&[("b", vec![1, 2, 3]), ("a", vec![4, 5])]);
    let first = InferenceService::generate(&mut state, "prompt", &params(Some(16)), 10);
    let second = InferenceService::generate(&mut state, "prompt", &params(Some(16)), 20);
    assert_eq!(first.tokens, second.tokens);
    assert_eq!(first.generated_text, second.generated_text);
}

#[test]
fn test_generate_order_is_canonical() {
    // Two caches with the same contents filled in different orders generate
    // the same stream: keys are walked in sorted order, not residence order.
    let mut s1 = state_with(&[("b", vec![1]), ("a", vec![2])]);
    let mut s2 = state_with(&[("a", vec![2]), ("b", vec![1])]);
    let r1 = InferenceService::generate(&mut s1, "p", &params(Some(4)), 1);
    let r2 = InferenceService::generate(&mut s2, "p", &params(Some(4)), 1);
    assert_eq!(r1.tokens, r2.tokens);
}

#[test]
fn test_generate_length_bound() {
    // The produced token count is the request clamped into 1..=256, with 0
    // treated as the smallest and None as the default of 128.
    for (requested, expected) in [
        (Some(0u32), 1usize),
        (Some(1), 1),
        (Some(1000), 256),
        (None, 128),
    ] {
        let mut state = state_with(&[("k", vec![9; 10])]);
        let r = InferenceService::generate(&mut state, "P", &params(requested), 1);
        assert_eq!(r.tokens.len(), expected);
        // Every token is the marker and sixteen hex digits.
        assert_eq!(r.generated_text.len(), expected * 17);
        for t in &r.tokens {
            assert!(t.starts_with('~'));
            assert_eq!(t.len(), 17);
            assert!(t[1..].chars().all(|c| c.is_ascii_hexdigit()));
        }
    }
}

#[test]
fn test_generate_sensitivity_to_cached_bytes() {
    // Changing one byte of one cached entry changes the stream.
    let mut s1 = state_with(&[("k", vec![1, 2, 3])]);
    let mut s2 = state_with(&[("k", vec![1, 2, 4])]);
    let r1 = InferenceService::generate(&mut s1, "p", &params(Some(1)), 1);
    let r2 = InferenceService::generate(&mut s2, "p", &params(Some(1)), 1);
    assert_eq!(r1.tokens, vec!["~35928d6530578e87".to_string()]);
    assert_eq!(r2.tokens, vec!["~baa59bb668710b3e".to_string()]);
    assert_ne!(r1.generated_text, r2.generated_text);
}

#[test]
fn test_generate_sensitivity_to_prompt() {
    let mut s1 = state_with(&[("k", vec![1, 2, 3])]);
    let mut s2 = state_with(&[("k", vec![1, 2, 3])]);
    let r1 = InferenceService::generate(&mut s1, "p", &params(Some(2)), 1);
    let r2 = InferenceService::generate(&mut s2, "q", &params(Some(2)), 1);
    assert_ne!(r1.generated_text, r2.generated_text);
}

#[test]
fn test_generate_counts_cached_reads() {
    // Every cached chunk read within the 64 KiB budget counts as a hit and
    // touches that entry's recency state.
    let mut state = state_with(&[("a", vec![1; 10]), ("b", vec![2; 20])]);
    let r = InferenceService::generate(&mut state, "p", &params(Some(1)), 99);
    assert_eq!(r.cache_hits, 2);
    assert_eq!(r.cache_misses, 0);
}

#[test]
fn test_process_inference_updates_metrics() {
    let mut state = state_with(&[("a", vec![1; 10])]);
    let request = InferenceRequest {
        seed: 0,
        prompt: "hi".to_string(),
        decode_params: params(Some(3)),
        msg_id: "msg-1".to_string(),
    };
    let r = InferenceService::process_inference(&mut state, &request, 42).unwrap();
    assert_eq!(r.tokens.len(), 3);
    assert_eq!(state.metrics.total_inferences, 1);
    assert_eq!(state.metrics.cache_hits, 1);
    assert_eq!(state.metrics.cache_misses, 0);
    assert_eq!(state.metrics.last_activity, 42);

    let _ = InferenceService::process_inference(&mut state, &request, 43).unwrap();
    assert_eq!(state.metrics.total_inferences, 2);
    assert_eq!(state.metrics.cache_hits, 2);
}

#[test]
fn test_tokenize_response_words_and_punctuation() {
    let toks = InferenceService::tokenize_response("Hello, world!");
    assert_eq!(toks, vec!["Hello", ",", "world", "!"]);
    let toks = InferenceService::tokenize_response("don't  stop");
    assert_eq!(toks, vec!["don't", "stop"]);
    let toks = InferenceService::tokenize_response("");
    assert!(toks.is_empty());
    let toks = InferenceService::tokenize_response("a.b");
    assert_eq!(toks, vec!["a", ".", "b"]);
}

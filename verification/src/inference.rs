//! The deterministic generation engine: a hash-chained token stream that is
//! a pure function of the prompt, the cache contents, and the token count.
//!
//! The engine clamps the requested token count to 1..=256 (128 when
//! unspecified), walks the cached chunks in the canonical lexicographic
//! order of their keys, feeds the prompt bytes and then at most the first
//! 4096 bytes of each chunk — up to a cumulative budget of 64 KiB — into
//! SHA-256, and derives tokens by hash chaining: each round's digest splits
//! into four 8-byte groups, each hex-encoded behind a fixed marker
//! character. Reading a chunk touches its recency state on purpose; the
//! bytes themselves never change, so repeating a call repeats its output.

use vstd::prelude::*;

use crate::cache::entry_key;
use crate::cache::key_index;
use crate::cache::CacheEntry;
use crate::digest::hex_of;
use crate::digest::push_hex;
use crate::digest::sha256;
use crate::digest::sha256_of;
use crate::digest::string_push;
use crate::domain::DecodeParams;
use crate::domain::InferenceRequest;
use crate::domain::InferenceResponse;
use crate::errors::AgentError;
use crate::state::AgentState;
use crate::text::sort_views;
use vstd::string::StringSliceAdditionalSpecFns;
use crate::text::views_of;

verus! {

/// The marker character that prefixes every token.
pub open spec fn token_marker() -> char {
    '~'
}

/// The requested token count clamped to 1..=256, with 128 when unspecified.
pub open spec fn clamp_max_tokens(requested: Option<u32>) -> u32 {
    let v = if requested is Some {
        requested.unwrap()
    } else {
        128u32
    };
    if v < 1 {
        1u32
    } else if v > 256 {
        256u32
    } else {
        v
    }
}

/// Key and data of every cache entry, in residence order: all the
/// generation engine may depend on.
pub open spec fn cache_kd(s: Seq<CacheEntry>) -> Seq<(Seq<char>, Seq<u8>)> {
    Seq::new(s.len(), |i: int| (entry_key(s[i]), s[i].data@))
}

/// The keys of the cache entries, in residence order.
pub open spec fn cache_key_views(s: Seq<CacheEntry>) -> Seq<Seq<char>> {
    Seq::new(s.len(), |i: int| entry_key(s[i]))
}

/// The bytes stored under a key, or the empty sequence for an absent key.
pub open spec fn cache_data_of(s: Seq<CacheEntry>, k: Seq<char>) -> Seq<u8> {
    if key_index(s, k) == -1 {
        Seq::empty()
    } else {
        s[key_index(s, k)].data@
    }
}

/// How many bytes of one chunk are fed: at most the first 4096, and never
/// more than the remaining budget.
pub open spec fn feed_take(d: Seq<u8>, budget: int) -> int {
    let cap = if d.len() <= 4096 {
        d.len() as int
    } else {
        4096
    };
    if cap <= budget {
        cap
    } else {
        budget
    }
}

/// The chunk bytes fed into the rolling hash: walking the given chunks in
/// order, a slice of each, until the budget runs out or the list ends.
pub open spec fn chunk_feed(datas: Seq<Seq<u8>>, budget: int) -> Seq<u8>
    decreases datas.len(),
{
    if datas.len() == 0 || budget <= 0 {
        Seq::empty()
    } else {
        datas.first().take(feed_take(datas.first(), budget)) + chunk_feed(
            datas.drop_first(),
            budget - feed_take(datas.first(), budget),
        )
    }
}

/// How many chunks the walk reads before it stops.
pub open spec fn feed_count(datas: Seq<Seq<u8>>, budget: int) -> int
    decreases datas.len(),
{
    if datas.len() == 0 || budget <= 0 {
        0
    } else {
        1 + feed_count(datas.drop_first(), budget - feed_take(datas.first(), budget))
    }
}

/// The cached chunk bytes in the canonical order: data of each key, keys
/// sorted lexicographically.
pub open spec fn engine_datas(s: Seq<CacheEntry>) -> Seq<Seq<u8>> {
    Seq::new(
        sort_views(cache_key_views(s)).len(),
        |i: int| cache_data_of(s, sort_views(cache_key_views(s))[i]),
    )
}

/// The seed digest: SHA-256 over the prompt bytes followed by the fed
/// chunk bytes.
pub open spec fn engine_seed(s: Seq<CacheEntry>, prompt: Seq<u8>) -> Seq<u8> {
    sha256_of(prompt + chunk_feed(engine_datas(s), 65536))
}

/// The digest of hash-chain round `round`: the seed hashed `round + 1`
/// times.
pub open spec fn chain_digest(seed: Seq<u8>, round: nat) -> Seq<u8>
    decreases round,
{
    if round == 0 {
        sha256_of(seed)
    } else {
        sha256_of(chain_digest(seed, (round - 1) as nat))
    }
}

/// Token `i`: the marker character, then the hex encoding of the `i % 4`-th
/// 8-byte group of round `i / 4`'s digest.
pub open spec fn token_at(seed: Seq<u8>, i: int) -> Seq<char>
    recommends
        0 <= i,
{
    seq![token_marker()] + hex_of(
        chain_digest(seed, (i / 4) as nat).subrange(8 * (i % 4), 8 * (i % 4) + 8),
    )
}

/// The generated text: all tokens concatenated with no separator.
pub open spec fn gen_text(seed: Seq<u8>, n: nat) -> Seq<char>
    decreases n,
{
    if n == 0 {
        Seq::empty()
    } else {
        gen_text(seed, (n - 1) as nat) + token_at(seed, n - 1)
    }
}

proof fn lemma_key_index_same_kd(s1: Seq<CacheEntry>, s2: Seq<CacheEntry>, k: Seq<char>)
    requires
        cache_kd(s1) == cache_kd(s2),
    ensures
        key_index(s1, k) == key_index(s2, k),
    decreases s1.len(),
{
    assert(cache_kd(s1).len() == s1.len());
    assert(cache_kd(s2).len() == s2.len());
    assert(s1.len() == s2.len());
    if s1.len() > 0 {
        assert(cache_kd(s1)[0] == (entry_key(s1[0]), s1[0].data@));
        assert(cache_kd(s2)[0] == (entry_key(s2[0]), s2[0].data@));
        assert(entry_key(s1.first()) == entry_key(s2.first()));
        assert(cache_kd(s1.drop_first()) =~= cache_kd(s2.drop_first())) by {
            assert forall|i: int| 0 <= i < s1.len() - 1 implies cache_kd(s1.drop_first())[i]
                == cache_kd(s2.drop_first())[i] by {
                assert(cache_kd(s1)[i + 1] == (entry_key(s1[i + 1]), s1[i + 1].data@));
                assert(cache_kd(s2)[i + 1] == (entry_key(s2[i + 1]), s2[i + 1].data@));
                assert(cache_kd(s1.drop_first())[i] == (
                    entry_key(s1.drop_first()[i]),
                    s1.drop_first()[i].data@,
                ));
                assert(cache_kd(s2.drop_first())[i] == (
                    entry_key(s2.drop_first()[i]),
                    s2.drop_first()[i].data@,
                ));
            }
        }
        lemma_key_index_same_kd(s1.drop_first(), s2.drop_first(), k);
    }
}

/// Everything the engine reads is a function of the cache's keys and data
/// alone.
proof fn lemma_engine_datas_same_kd(s1: Seq<CacheEntry>, s2: Seq<CacheEntry>)
    requires
        cache_kd(s1) == cache_kd(s2),
    ensures
        engine_datas(s1) == engine_datas(s2),
{
    assert(cache_kd(s1).len() == s1.len());
    assert(cache_kd(s2).len() == s2.len());
    assert(s1.len() == s2.len());
    assert(cache_key_views(s1) =~= cache_key_views(s2)) by {
        assert forall|i: int| 0 <= i < s1.len() implies cache_key_views(s1)[i] == cache_key_views(
            s2,
        )[i] by {
            assert(cache_kd(s1)[i] == (entry_key(s1[i]), s1[i].data@));
            assert(cache_kd(s2)[i] == (entry_key(s2[i]), s2[i].data@));
        }
    }
    assert forall|i: int| 0 <= i < engine_datas(s1).len() implies engine_datas(s1)[i]
        == engine_datas(s2)[i] by {
        let k = sort_views(cache_key_views(s1))[i];
        lemma_key_index_same_kd(s1, s2, k);
        if key_index(s1, k) != -1 {
            crate::cache::lemma_key_index_props(s1, k);
            let idx = key_index(s1, k);
            assert(cache_kd(s1)[idx] == (entry_key(s1[idx]), s1[idx].data@));
            assert(cache_kd(s2)[idx] == (entry_key(s2[idx]), s2[idx].data@));
        }
    }
    assert(engine_datas(s1) =~= engine_datas(s2));
}

/// Determinism: the engine's whole output — seed, every token, and the
/// concatenated text — is a pure function of the prompt, the cache's keys
/// and data, and the token count. Two caches that hold the same bytes under
/// the same keys, in any residence order of equal key-data listing, drive
/// `generate` to byte-identical output; and since `generate` itself leaves
/// every key and every byte of data unchanged, two consecutive calls with
/// the same prompt and count return identical tokens and text.
pub proof fn lemma_generate_deterministic(
    s1: Seq<CacheEntry>,
    s2: Seq<CacheEntry>,
    prompt: Seq<u8>,
    n: nat,
)
    requires
        cache_kd(s1) == cache_kd(s2),
    ensures
        engine_seed(s1, prompt) == engine_seed(s2, prompt),
        gen_text(engine_seed(s1, prompt), n) == gen_text(engine_seed(s2, prompt), n),
        forall|i: int|
            0 <= i ==> token_at(engine_seed(s1, prompt), i) == token_at(
                engine_seed(s2, prompt),
                i,
            ),
{
    lemma_engine_datas_same_kd(s1, s2);
}

/// The generation engine.
pub struct InferenceService;

impl InferenceService {
    /// Runs the deterministic generation pipeline. The output is pinned to
    /// the spec-level pipeline — clamped count, canonical key order, budgeted
    /// feed, hash chaining — of the prompt and the cache as it stood at the
    /// call; the call touches chunk recency state but no key and no byte of
    /// cached data, and nothing else in the state.
    pub fn generate(state: &mut AgentState, prompt: &str, params: &DecodeParams, now: u64) -> (r:
        InferenceResponse)
        requires
            old(state).wf(),
        ensures
            final(state).wf(),
            final(state).binding == old(state).binding,
            final(state).manifest == old(state).manifest,
            final(state).config == old(state).config,
            final(state).memory == old(state).memory,
            final(state).metrics == old(state).metrics,
            final(state).cache.budget() == old(state).cache.budget(),
            cache_kd(final(state).cache.view_entries()) == cache_kd(
                old(state).cache.view_entries(),
            ),
            ({
                let seed = engine_seed(old(state).cache.view_entries(), prompt.spec_bytes());
                let n = clamp_max_tokens(params.max_tokens);
                &&& r.tokens@.len() == n
                &&& (forall|i: int|
                    0 <= i < n ==> r.tokens@[i]@ == token_at(seed, i))
                &&& r.generated_text@ == gen_text(seed, n as nat)
                &&& r.inference_time_ms == 0
                &&& r.cache_misses == 0
                &&& ({
                    let c = feed_count(
                        engine_datas(old(state).cache.view_entries()),
                        65536,
                    );
                    r.cache_hits == (if c <= u32::MAX {
                        c
                    } else {
                        u32::MAX as int
                    })
                })
            }),
    {
        let n_tokens: u32 = match params.max_tokens {
            None => 128,
            Some(x) => if x < 1 {
                1
            } else if x > 256 {
                256
            } else {
                x
            },
        };

        let ghost entries0 = state.cache.view_entries();
        let ghost pbytes = prompt.spec_bytes();
        let ghost datas = engine_datas(entries0);

        // Canonical order: every cache key, sorted lexicographically.
        let keys = state.cache.keys();
        let sorted = sort_strings_for_engine(keys, Ghost(entries0));
        proof {
            crate::text::lemma_sort_views_len(cache_key_views(entries0));
        }

        // The rolling feed: prompt bytes first, then budgeted chunk slices.
        let mut buf: Vec<u8> = vstd::slice::slice_to_vec(prompt.as_bytes());
        let mut budget_left: usize = 65536;
        let mut walked: usize = 0;
        let mut hits: u32 = 0;
        proof {
            assert(datas.skip(0) =~= datas);
        }
        while walked < sorted.len() && budget_left > 0
            invariant
                state.wf(),
                state.binding == old(state).binding,
                state.manifest == old(state).manifest,
                state.config == old(state).config,
                state.memory == old(state).memory,
                state.metrics == old(state).metrics,
                state.cache.budget() == old(state).cache.budget(),
                entries0 == old(state).cache.view_entries(),
                pbytes == prompt.spec_bytes(),
                datas == engine_datas(entries0),
                cache_kd(state.cache.view_entries()) == cache_kd(entries0),
                views_of(sorted@) == sort_views(cache_key_views(entries0)),
                sorted@.len() == entries0.len(),
                datas.len() == sorted@.len(),
                walked <= sorted@.len(),
                budget_left <= 65536,
                buf@ + chunk_feed(datas.skip(walked as int), budget_left as int) == pbytes
                    + chunk_feed(datas, 65536),
                feed_count(datas, 65536) == walked + feed_count(
                    datas.skip(walked as int),
                    budget_left as int,
                ),
                hits as int == (if walked <= u32::MAX {
                    walked as int
                } else {
                    u32::MAX as int
                }),
            decreases sorted@.len() - walked,
        {
            let ghost cur_entries = state.cache.view_entries();
            proof {
                // The walked key is a key of the cache.
                assert(views_of(sorted@)[walked as int] == sorted@[walked as int]@);
                assert(sort_views(cache_key_views(entries0)).contains(sorted@[walked as int]@)) by {
                    assert(sort_views(cache_key_views(entries0))[walked as int] == sorted@[
                    walked as int]@);
                }
                crate::text::lemma_sort_views_contains(
                    cache_key_views(entries0),
                    sorted@[walked as int]@,
                );
                let j = choose|j: int|
                    0 <= j < cache_key_views(entries0).len() && cache_key_views(entries0)[j]
                        == sorted@[walked as int]@;
                assert(entry_key(entries0[j]) == sorted@[walked as int]@);
                assert(cache_kd(cur_entries).len() == cur_entries.len());
                assert(cache_kd(entries0).len() == entries0.len());
                assert(cache_kd(cur_entries)[j] == (
                    entry_key(cur_entries[j]),
                    cur_entries[j].data@,
                ));
                assert(cache_kd(entries0)[j] == (entry_key(entries0[j]), entries0[j].data@));
                assert(entry_key(cur_entries[j]) == sorted@[walked as int]@);
                crate::cache::lemma_key_index_props(cur_entries, sorted@[walked as int]@);
            }
            let got = state.cache.get(sorted[walked].as_str(), now);
            let bytes = match got {
                Some(b) => b,
                None => vstd::pervasive::unreached(),
            };
            proof {
                // The touch changed recency fields only: keys and data stand.
                let ci = key_index(cur_entries, sorted@[walked as int]@);
                assert(cache_kd(state.cache.view_entries()) =~= cache_kd(cur_entries)) by {
                    assert forall|i: int|
                        0 <= i < cur_entries.len() implies cache_kd(
                        state.cache.view_entries(),
                    )[i] == cache_kd(cur_entries)[i] by {
                        if i != ci {
                            assert(state.cache.view_entries()[i] == cur_entries[i]);
                        }
                    }
                }
                // The returned bytes are this key's data in the original cache.
                lemma_key_index_same_kd(cur_entries, entries0, sorted@[walked as int]@);
                let oi = key_index(entries0, sorted@[walked as int]@);
                assert(cache_kd(cur_entries)[oi] == cache_kd(entries0)[oi]);
                assert(bytes@ == cache_data_of(entries0, sorted@[walked as int]@));
                assert(datas[walked as int] == bytes@);
            }
            let cap: usize = if bytes.len() <= 4096 {
                bytes.len()
            } else {
                4096
            };
            let take: usize = if cap <= budget_left {
                cap
            } else {
                budget_left
            };
            proof {
                assert(feed_take(datas[walked as int], budget_left as int) == take as int);
            }
            let ghost buf_before = buf@;
            for k in 0..take
                invariant
                    take <= bytes@.len(),
                    buf@ == buf_before + bytes@.take(k as int),
            {
                buf.push(bytes[k]);
                proof {
                    assert(bytes@.take(k + 1) =~= bytes@.take(k as int).push(bytes@[k as int]));
                }
            }
            proof {
                let rest = datas.skip(walked as int);
                assert(rest.first() == datas[walked as int]);
                assert(rest.drop_first() =~= datas.skip(walked as int + 1));
                assert(chunk_feed(rest, budget_left as int) == bytes@.take(take as int)
                    + chunk_feed(datas.skip(walked as int + 1), budget_left - take));
                assert(feed_count(rest, budget_left as int) == 1 + feed_count(
                    datas.skip(walked as int + 1),
                    budget_left - take,
                ));
            }
            budget_left = budget_left - take;
            walked = walked + 1;
            if hits < u32::MAX {
                hits = hits + 1;
            }
        }
        proof {
            if walked >= sorted@.len() {
                assert(datas.skip(walked as int).len() == 0);
            }
            assert(chunk_feed(datas.skip(walked as int), budget_left as int)
                =~= Seq::<u8>::empty());
            assert(buf@ =~= pbytes + chunk_feed(datas, 65536));
            assert(feed_count(datas.skip(walked as int), budget_left as int) == 0);
        }

        // Seed digest, then hash chaining.
        let seed = sha256(buf.as_slice());
        let ghost seedv = seed@;
        proof {
            assert(seedv == engine_seed(entries0, pbytes));
        }

        let mut tokens: Vec<String> = Vec::new();
        let mut text = String::new();
        let mut current: Vec<u8> = sha256(seed.as_slice());
        let mut produced: u32 = 0;
        while produced < n_tokens
            invariant
                n_tokens <= 256,
                produced <= n_tokens,
                current@.len() == 32,
                current@ == chain_digest(
                    seedv,
                    (if produced == 0 {
                        0int
                    } else {
                        (produced - 1) as int / 4
                    }) as nat,
                ),
                tokens@.len() == produced,
                forall|j: int| 0 <= j < produced ==> tokens@[j]@ == token_at(seedv, j),
                text@ == gen_text(seedv, produced as nat),
            decreases n_tokens - produced,
        {
            if produced > 0 && produced % 4 == 0 {
                current = sha256(current.as_slice());
                proof {
                    assert((produced as int / 4) as nat == ((produced - 1) as int / 4 + 1) as nat);
                }
            }
            proof {
                assert(current@ == chain_digest(seedv, (produced as int / 4) as nat));
            }
            let g: usize = (produced % 4) as usize;
            let grp = vstd::slice::slice_subrange(current.as_slice(), 8 * g, 8 * g + 8);
            let mut tok = String::new();
            string_push(&mut tok, '~');
            push_hex(&mut tok, grp);
            proof {
                assert(tok@ =~= token_at(seedv, produced as int));
            }
            text.append(tok.as_str());
            tokens.push(tok);
            produced = produced + 1;
        }

        InferenceResponse {
            tokens,
            generated_text: text,
            inference_time_ms: 0,
            cache_hits: hits,
            cache_misses: 0,
        }
    }

    /// Serves an inference request with the deterministic engine: always
    /// succeeds, returns the engine's output, and folds its advisory cache
    /// counters and the activity instant into the cumulative metrics.
    pub fn process_inference(state: &mut AgentState, request: &InferenceRequest, now: u64) -> (r:
        Result<InferenceResponse, AgentError>)
        requires
            old(state).wf(),
        ensures
            r is Ok,
            final(state).wf(),
            final(state).binding == old(state).binding,
            final(state).manifest == old(state).manifest,
            final(state).config == old(state).config,
            final(state).memory == old(state).memory,
            final(state).cache.budget() == old(state).cache.budget(),
            cache_kd(final(state).cache.view_entries()) == cache_kd(
                old(state).cache.view_entries(),
            ),
            ({
                let seed = engine_seed(
                    old(state).cache.view_entries(),
                    vstd::utf8::encode_utf8(request.prompt@),
                );
                let n = clamp_max_tokens(request.decode_params.max_tokens);
                let v = r.unwrap();
                &&& v.tokens@.len() == n
                &&& (forall|i: int| 0 <= i < n ==> v.tokens@[i]@ == token_at(seed, i))
                &&& v.generated_text@ == gen_text(seed, n as nat)
                &&& v.cache_misses == 0
                &&& v.inference_time_ms == 0
                &&& ({
                    let c = feed_count(
                        engine_datas(old(state).cache.view_entries()),
                        65536,
                    );
                    v.cache_hits == (if c <= u32::MAX {
                        c
                    } else {
                        u32::MAX as int
                    })
                })
            }),
            final(state).metrics.last_activity == now,
            final(state).metrics.total_inferences == (if old(state).metrics.total_inferences
                < u64::MAX {
                old(state).metrics.total_inferences + 1
            } else {
                old(state).metrics.total_inferences as int
            }),
            final(state).metrics.cache_hits == (if old(state).metrics.cache_hits
                + r.unwrap().cache_hits <= u64::MAX {
                old(state).metrics.cache_hits + r.unwrap().cache_hits
            } else {
                u64::MAX as int
            }),
            final(state).metrics.cache_misses == old(state).metrics.cache_misses,
    {
        let response = Self::generate(state, request.prompt.as_str(), &request.decode_params, now);
        state.metrics.total_inferences = if state.metrics.total_inferences < u64::MAX {
            state.metrics.total_inferences + 1
        } else {
            state.metrics.total_inferences
        };
        state.metrics.cache_hits = state.metrics.cache_hits.saturating_add(
            response.cache_hits as u64,
        );
        state.metrics.last_activity = now;
        Ok(response)
    }
}

/// Sorts the cache's keys, carrying the fact that their views are exactly
/// the cache's key views.
fn sort_strings_for_engine(keys: Vec<String>, Ghost(entries): Ghost<Seq<CacheEntry>>) -> (r: Vec<
    String,
>)
    requires
        keys@.len() == entries.len(),
        forall|i: int| 0 <= i < keys@.len() ==> keys@[i]@ == entry_key(#[trigger] entries[i]),
    ensures
        views_of(r@) == sort_views(cache_key_views(entries)),
        r@.len() == entries.len(),
{
    proof {
        assert(views_of(keys@) =~= cache_key_views(entries));
    }
    let r = crate::text::sort_strings(keys);
    proof {
        crate::text::lemma_sort_views_len(cache_key_views(entries));
        assert(r@.len() == views_of(r@).len());
    }
    r
}


/// Whether a character belongs to a word: alphanumeric or an apostrophe.
pub open spec fn word_char(c: char) -> bool {
    crate::text::char_is_alphanumeric(c) || c == '\''
}

/// The simple tokenization of a text, from position `i` with the pending
/// word `cur` and the tokens `out` already emitted: whitespace ends a word,
/// a word character extends it, and any other character ends the word and
/// stands as a token of its own.
pub open spec fn tokenize_rec(s: Seq<char>, i: int, cur: Seq<char>, out: Seq<Seq<char>>) -> Seq<
    Seq<char>,
>
    decreases s.len() - i,
{
    if i < 0 || i >= s.len() {
        if cur.len() > 0 {
            out.push(cur)
        } else {
            out
        }
    } else {
        let c = s[i];
        if crate::text::char_is_whitespace(c) {
            tokenize_rec(
                s,
                i + 1,
                Seq::empty(),
                if cur.len() > 0 {
                    out.push(cur)
                } else {
                    out
                },
            )
        } else if word_char(c) {
            tokenize_rec(s, i + 1, cur.push(c), out)
        } else {
            tokenize_rec(
                s,
                i + 1,
                Seq::empty(),
                (if cur.len() > 0 {
                    out.push(cur)
                } else {
                    out
                }).push(seq![c]),
            )
        }
    }
}

/// The simple tokenization of a text: words of alphanumeric-or-apostrophe
/// characters, with every other non-whitespace character as a token of its
/// own.
pub open spec fn tokenize_spec(s: Seq<char>) -> Seq<Seq<char>> {
    tokenize_rec(s, 0, Seq::empty(), Seq::empty())
}


impl InferenceService {
    /// Splits a response into simple tokens: maximal runs of alphanumeric
    /// or apostrophe characters, with every other non-whitespace character
    /// emitted as a token of its own.
    pub fn tokenize_response(response: &str) -> (r: Vec<String>)
        ensures
            views_of(r@) == tokenize_spec(response@),
    {
        let chars = crate::text::chars_vec(response);
        let n = chars.len();
        let mut out: Vec<String> = Vec::new();
        let mut cur = String::new();
        proof {
            assert(views_of(out@) =~= Seq::<Seq<char>>::empty());
        }
        for i in 0..n
            invariant
                n == chars@.len(),
                chars@ == response@,
                tokenize_spec(response@) == tokenize_rec(response@, i as int, cur@, views_of(out@)),
        {
            let c = chars[i];
            if c.is_whitespace() {
                if !cur.as_str().is_empty() {
                    let ghost before = out@;
                    out.push(cur);
                    proof {
                        assert(views_of(out@) =~= views_of(before).push(out@.last()@));
                    }
                } else {
                    proof {
                        assert(cur@.len() == 0);
                    }
                }
                cur = String::new();
            } else if c.is_alphanumeric() || c == '\'' {
                string_push(&mut cur, c);
            } else {
                if !cur.as_str().is_empty() {
                    let ghost before = out@;
                    out.push(cur);
                    proof {
                        assert(views_of(out@) =~= views_of(before).push(out@.last()@));
                    }
                    cur = String::new();
                } else {
                    proof {
                        assert(cur@.len() == 0);
                    }
                    cur = String::new();
                }
                let mut punct = String::new();
                string_push(&mut punct, c);
                let ghost before2 = out@;
                proof {
                    assert(punct@ =~= seq![response@[i as int]]);
                }
                out.push(punct);
                proof {
                    assert(views_of(out@) =~= views_of(before2).push(out@.last()@));
                }
            }
        }
        if !cur.as_str().is_empty() {
            let ghost before = out@;
            out.push(cur);
            proof {
                assert(views_of(out@) =~= views_of(before).push(out@.last()@));
            }
        } else {
            proof {
                assert(cur@.len() == 0);
            }
        }
        out
    }
}

} // verus!



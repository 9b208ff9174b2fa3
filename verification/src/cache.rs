//! The chunk cache: a size-bounded key-to-bytes store with
//! least-recently-used eviction.
//!
//! Entries are held in insertion order with unique keys. `put` evicts the
//! oldest entries (ascending `last_accessed`, earliest entry first among
//! ties) until the new entry fits under the byte budget or the cache is
//! empty; an entry larger than the whole budget therefore drains the cache
//! and is still inserted. `get` returns a copy of the bytes and touches the
//! entry's recency state; it never evicts. The running byte total always
//! equals the true sum of resident entry sizes.

use vstd::prelude::*;

use crate::errors::AgentError;

verus! {

/// One resident cache entry, keyed by chunk id.
#[derive(Debug, Clone)]
pub struct CacheEntry {
    pub layer_id: String,
    pub data: Vec<u8>,
    pub last_accessed: u64,
    pub access_count: u32,
    pub size_bytes: usize,
}

/// The key of an entry, as a sequence of characters.
pub open spec fn entry_key(e: CacheEntry) -> Seq<char> {
    e.layer_id@
}

/// A stored size field agrees with the stored bytes.
pub open spec fn entry_wf(e: CacheEntry) -> bool {
    e.size_bytes == e.data@.len()
}

/// No two entries share a key.
pub open spec fn keys_unique(s: Seq<CacheEntry>) -> bool {
    forall|i: int, j: int| 0 <= i < j < s.len() ==> entry_key(s[i]) != entry_key(s[j])
}

/// The sum of the stored sizes of all entries.
pub open spec fn sum_sizes(s: Seq<CacheEntry>) -> int
    decreases s.len(),
{
    if s.len() == 0 {
        0
    } else {
        sum_sizes(s.drop_last()) + s.last().size_bytes
    }
}

/// The index of the first entry whose key is `k`, or -1 if there is none.
pub open spec fn key_index(s: Seq<CacheEntry>, k: Seq<char>) -> int
    decreases s.len(),
{
    if s.len() == 0 {
        -1
    } else if entry_key(s.first()) == k {
        0
    } else if key_index(s.drop_first(), k) == -1 {
        -1
    } else {
        key_index(s.drop_first(), k) + 1
    }
}

/// The sequence with the entry keyed `k` taken out, if present.
pub open spec fn remove_key(s: Seq<CacheEntry>, k: Seq<char>) -> Seq<CacheEntry> {
    if key_index(s, k) == -1 {
        s
    } else {
        s.remove(key_index(s, k))
    }
}

/// The index of the entry evicted next: the first among those with the
/// least `last_accessed`.
pub open spec fn min_accessed_index(s: Seq<CacheEntry>) -> int
    decreases s.len(),
{
    if s.len() <= 1 {
        0
    } else {
        let m = min_accessed_index(s.drop_last());
        if s.last().last_accessed < s[m].last_accessed {
            s.len() - 1
        } else {
            m
        }
    }
}

/// The entries left after evicting oldest-first until an entry of size
/// `need` fits under `budget`, or the cache is empty.
pub open spec fn evict_to_fit(s: Seq<CacheEntry>, need: int, budget: int) -> Seq<CacheEntry>
    decreases s.len(),
    via evict_to_fit_decreases
{
    if sum_sizes(s) + need <= budget || s.len() == 0 {
        s
    } else {
        evict_to_fit(s.remove(min_accessed_index(s)), need, budget)
    }
}

#[via_fn]
proof fn evict_to_fit_decreases(s: Seq<CacheEntry>, need: int, budget: int) {
    if !(sum_sizes(s) + need <= budget || s.len() == 0) {
        lemma_min_accessed_index_in_range(s);
    }
}

proof fn lemma_sum_sizes_nonneg(s: Seq<CacheEntry>)
    ensures
        sum_sizes(s) >= 0,
    decreases s.len(),
{
    if s.len() > 0 {
        lemma_sum_sizes_nonneg(s.drop_last());
    }
}

proof fn lemma_sum_sizes_remove(s: Seq<CacheEntry>, i: int)
    requires
        0 <= i < s.len(),
    ensures
        sum_sizes(s.remove(i)) == sum_sizes(s) - s[i].size_bytes,
    decreases s.len(),
{
    if i == s.len() - 1 {
        assert(s.remove(i) =~= s.drop_last());
    } else {
        lemma_sum_sizes_remove(s.drop_last(), i);
        assert(s.remove(i).drop_last() =~= s.drop_last().remove(i));
        assert(s.remove(i).last() == s.last());
    }
}

proof fn lemma_sum_sizes_update_same_size(s: Seq<CacheEntry>, i: int, e: CacheEntry)
    requires
        0 <= i < s.len(),
        e.size_bytes == s[i].size_bytes,
    ensures
        sum_sizes(s.update(i, e)) == sum_sizes(s),
    decreases s.len(),
{
    if i == s.len() - 1 {
        assert(s.update(i, e).drop_last() =~= s.drop_last());
        assert(s.update(i, e).last() == e);
    } else {
        lemma_sum_sizes_update_same_size(s.drop_last(), i, e);
        assert(s.update(i, e).drop_last() =~= s.drop_last().update(i, e));
        assert(s.update(i, e).last() == s.last());
    }
}

proof fn lemma_min_accessed_index_in_range(s: Seq<CacheEntry>)
    requires
        s.len() > 0,
    ensures
        0 <= min_accessed_index(s) < s.len(),
    decreases s.len(),
{
    if s.len() > 1 {
        lemma_min_accessed_index_in_range(s.drop_last());
    }
}

/// Establishes `key_index` from what a front-to-back scan saw.
proof fn lemma_key_index_found(s: Seq<CacheEntry>, k: Seq<char>, i: int)
    requires
        0 <= i < s.len(),
        entry_key(s[i]) == k,
        forall|j: int| 0 <= j < i ==> entry_key(s[j]) != k,
    ensures
        key_index(s, k) == i,
    decreases s.len(),
{
    if i > 0 {
        lemma_key_index_found(s.drop_first(), k, i - 1);
    }
}

proof fn lemma_key_index_none(s: Seq<CacheEntry>, k: Seq<char>)
    requires
        forall|j: int| 0 <= j < s.len() ==> entry_key(s[j]) != k,
    ensures
        key_index(s, k) == -1,
    decreases s.len(),
{
    if s.len() > 0 {
        lemma_key_index_none(s.drop_first(), k);
    }
}

/// What holds of `key_index` when it is not -1.
pub proof fn lemma_key_index_props(s: Seq<CacheEntry>, k: Seq<char>)
    ensures
        key_index(s, k) == -1 ==> forall|j: int| 0 <= j < s.len() ==> entry_key(s[j]) != k,
        key_index(s, k) != -1 ==> {
            let i = key_index(s, k);
            &&& 0 <= i < s.len()
            &&& entry_key(s[i]) == k
            &&& forall|j: int| 0 <= j < i ==> entry_key(s[j]) != k
        },
    decreases s.len(),
{
    if s.len() > 0 {
        lemma_key_index_props(s.drop_first(), k);
        let t = s.drop_first();
        if entry_key(s.first()) != k {
            if key_index(t, k) == -1 {
                assert forall|j: int| 0 <= j < s.len() implies entry_key(s[j]) != k by {
                    if j > 0 {
                        assert(entry_key(t[j - 1]) != k);
                    }
                }
            } else {
                let i = key_index(s, k);
                assert(s[i] == t[i - 1]);
                assert forall|j: int| 0 <= j < i implies entry_key(s[j]) != k by {
                    if j > 0 {
                        assert(entry_key(t[j - 1]) != k);
                    }
                }
            }
        }
    }
}

/// A key stays findable, at the same place, when an entry is appended.
pub proof fn lemma_key_index_push(s: Seq<CacheEntry>, e: CacheEntry, k: Seq<char>)
    requires
        key_index(s, k) != -1,
    ensures
        key_index(s.push(e), k) == key_index(s, k),
    decreases s.len(),
{
    lemma_key_index_props(s, k);
    if entry_key(s.first()) == k {
        assert(s.push(e).first() == s.first());
    } else {
        assert(s.push(e).first() == s.first());
        assert(s.push(e).drop_first() =~= s.drop_first().push(e));
        lemma_key_index_push(s.drop_first(), e, k);
    }
}

/// The default byte budget of the cache.
pub const DEFAULT_MAX_CACHE_SIZE: usize = 100 * 1024 * 1024;

/// The chunk cache itself.
pub struct CacheService {
    entries: Vec<CacheEntry>,
    current_size: usize,
    max_cache_size: usize,
}

impl CacheService {
    /// The resident entries, oldest insertion first.
    pub closed spec fn view_entries(self) -> Seq<CacheEntry> {
        self.entries@
    }

    /// The byte budget.
    pub closed spec fn budget(self) -> usize {
        self.max_cache_size
    }

    /// Well-formedness: unique keys, honest size fields, and a running
    /// total that equals the true sum of resident sizes.
    pub closed spec fn wf(self) -> bool {
        &&& keys_unique(self.entries@)
        &&& forall|i: int| 0 <= i < self.entries@.len() ==> entry_wf(#[trigger] self.entries@[i])
        &&& self.current_size == sum_sizes(self.entries@)
    }

    /// An empty cache with the given byte budget.
    pub fn new(max_cache_size: usize) -> (r: CacheService)
        ensures
            r.wf(),
            r.view_entries() == Seq::<CacheEntry>::empty(),
            r.budget() == max_cache_size,
    {
        let r = CacheService { entries: Vec::new(), current_size: 0, max_cache_size };
        assert(r.entries@ =~= Seq::<CacheEntry>::empty());
        r
    }

    /// An empty cache with the default byte budget.
    pub fn with_default_budget() -> (r: CacheService)
        ensures
            r.wf(),
            r.view_entries() == Seq::<CacheEntry>::empty(),
            r.budget() == DEFAULT_MAX_CACHE_SIZE,
    {
        Self::new(DEFAULT_MAX_CACHE_SIZE)
    }

    /// The number of resident entries.
    pub fn len(&self) -> (r: usize)
        ensures
            r == self.view_entries().len(),
    {
        self.entries.len()
    }

    /// The used bytes and the budget: the exact fraction of the byte budget
    /// in use. The first component equals the true sum of resident entry
    /// sizes at every observable point.
    pub fn utilization(&self) -> (r: (usize, usize))
        requires
            self.wf(),
        ensures
            r.0 == sum_sizes(self.view_entries()),
            r.1 == self.budget(),
    {
        (self.current_size, self.max_cache_size)
    }

    fn find_key(&self, key: &str) -> (r: Option<usize>)
        ensures
            match r {
                Some(i) => key_index(self.view_entries(), key@) == i as int,
                None => key_index(self.view_entries(), key@) == -1,
            },
    {
        let n = self.entries.len();
        for i in 0..n
            invariant
                n == self.entries@.len(),
                forall|j: int| 0 <= j < i ==> entry_key(self.entries@[j]) != key@,
        {
            if chars_eq(self.entries[i].layer_id.as_str(), key) {
                proof {
                    lemma_key_index_found(self.entries@, key@, i as int);
                }
                return Some(i);
            }
        }
        proof {
            lemma_key_index_none(self.entries@, key@);
        }
        None
    }

    /// Whether an entry with the given key is resident.
    pub fn contains_key(&self, key: &str) -> (r: bool)
        ensures
            r == (key_index(self.view_entries(), key@) != -1),
    {
        self.find_key(key).is_some()
    }

    /// Copies of the resident keys, in residence order.
    pub fn keys(&self) -> (r: Vec<String>)
        ensures
            r@.len() == self.view_entries().len(),
            forall|i: int|
                0 <= i < r@.len() ==> r@[i]@ == entry_key(#[trigger] self.view_entries()[i]),
    {
        let mut r: Vec<String> = Vec::new();
        let n = self.entries.len();
        for i in 0..n
            invariant
                n == self.entries@.len(),
                r@.len() == i,
                forall|j: int| 0 <= j < i ==> r@[j]@ == entry_key(#[trigger] self.entries@[j]),
        {
            r.push(self.entries[i].layer_id.clone());
        }
        r
    }

    /// Looks a chunk up. On a hit, returns a copy of the bytes and, as a
    /// side effect, sets the entry's `last_accessed` to `now` and counts the
    /// access; on a miss returns `None` and changes nothing. A `get` never
    /// evicts.
    pub fn get(&mut self, layer_id: &str, now: u64) -> (r: Option<Vec<u8>>)
        requires
            old(self).wf(),
        ensures
            final(self).wf(),
            final(self).budget() == old(self).budget(),
            key_index(old(self).view_entries(), layer_id@) == -1 ==> r is None && *final(self)
                == *old(self),
            key_index(old(self).view_entries(), layer_id@) != -1 ==> {
                let i = key_index(old(self).view_entries(), layer_id@);
                let e = old(self).view_entries()[i];
                &&& r is Some
                &&& r.unwrap()@ == e.data@
                &&& final(self).view_entries() == old(self).view_entries().update(
                    i,
                    (CacheEntry {
                        last_accessed: now,
                        access_count: if e.access_count < u32::MAX {
                            (e.access_count + 1) as u32
                        } else {
                            e.access_count
                        },
                        ..e
                    }),
                )
            },
    {
        match self.find_key(layer_id) {
            None => None,
            Some(i) => {
                proof {
                    lemma_key_index_props(self.entries@, layer_id@);
                }
                let ghost s0 = self.entries@;
                let ghost idx = i as int;
                let mut e = self.entries.remove(i);
                let out = clone_bytes(&e.data);
                e.last_accessed = now;
                e.access_count = if e.access_count < u32::MAX {
                    e.access_count + 1
                } else {
                    e.access_count
                };
                self.entries.insert(i, e);
                proof {
                    assert(self.entries@ =~= s0.update(idx, self.entries@[idx]));
                    lemma_sum_sizes_update_same_size(s0, idx, self.entries@[idx]);
                    assert forall|a: int, b: int|
                        0 <= a < b < self.entries@.len() implies entry_key(self.entries@[a])
                        != entry_key(self.entries@[b]) by {
                        assert(entry_key(s0[a]) != entry_key(s0[b]));
                    }
                }
                Some(out)
            },
        }
    }

    /// Inserts a chunk under its key, replacing any entry already stored
    /// under it, after evicting the least recently used entries until the
    /// new bytes fit under the budget or the cache is empty. The new entry
    /// always ends up resident, with `access_count` 1 and `last_accessed`
    /// set to `now`. Eviction never fails.
    pub fn put(&mut self, layer_id: String, data: Vec<u8>, now: u64) -> (r: Result<(), AgentError>)
        requires
            old(self).wf(),
        ensures
            final(self).wf(),
            final(self).budget() == old(self).budget(),
            r is Ok,
            final(self).view_entries() == evict_to_fit(
                remove_key(old(self).view_entries(), layer_id@),
                data@.len() as int,
                old(self).budget() as int,
            ).push(
                (CacheEntry {
                    layer_id: layer_id,
                    data: data,
                    last_accessed: now,
                    access_count: 1,
                    size_bytes: data@.len() as usize,
                }),
            ),
    {
        let size = data.len();

        // Drop any entry already stored under this key, so that replacement
        // does not double-count its bytes.
        match self.find_key(layer_id.as_str()) {
            None => {},
            Some(i) => {
                proof {
                    lemma_key_index_props(self.entries@, layer_id@);
                    lemma_sum_sizes_remove(self.entries@, i as int);
                    lemma_sum_sizes_nonneg(self.entries@.remove(i as int));
                    let s0 = self.entries@;
                    assert forall|a: int, b: int|
                        0 <= a < b < s0.remove(i as int).len() implies entry_key(
                        s0.remove(i as int)[a],
                    ) != entry_key(s0.remove(i as int)[b]) by {
                        let a0 = if a < i as int {
                            a
                        } else {
                            a + 1
                        };
                        let b0 = if b < i as int {
                            b
                        } else {
                            b + 1
                        };
                        assert(entry_key(s0[a0]) != entry_key(s0[b0]));
                    }
                }
                let e = self.entries.remove(i);
                self.current_size = self.current_size - e.size_bytes;
            },
        }
        let ghost deduped = remove_key(old(self).view_entries(), layer_id@);
        assert(self.entries@ == deduped);

        proof {
            lemma_key_index_props(self.entries@, layer_id@);
        }
        assert(forall|j: int|
            0 <= j < self.entries@.len() ==> entry_key(#[trigger] self.entries@[j]) != layer_id@);

        // Evict oldest-first until the new entry fits or nothing is left.
        while (self.current_size as u128) + (size as u128) > (self.max_cache_size as u128)
            && self.entries.len() > 0
            invariant
                self.wf(),
                size == data@.len(),
                self.max_cache_size == old(self).budget(),
                forall|j: int|
                    0 <= j < self.entries@.len() ==> entry_key(#[trigger] self.entries@[j])
                        != layer_id@,
                evict_to_fit(self.entries@, size as int, self.max_cache_size as int)
                    == evict_to_fit(deduped, size as int, self.max_cache_size as int),
            decreases self.entries@.len(),
        {
            let m = self.find_min_accessed();
            proof {
                let s0 = self.entries@;
                let mi = m as int;
                lemma_min_accessed_index_in_range(s0);
                lemma_sum_sizes_remove(s0, mi);
                lemma_sum_sizes_nonneg(s0.remove(mi));
                assert forall|a: int, b: int|
                    0 <= a < b < s0.remove(mi).len() implies entry_key(s0.remove(mi)[a])
                    != entry_key(s0.remove(mi)[b]) by {
                    let a0 = if a < mi {
                        a
                    } else {
                        a + 1
                    };
                    let b0 = if b < mi {
                        b
                    } else {
                        b + 1
                    };
                    assert(entry_key(s0[a0]) != entry_key(s0[b0]));
                }
            }
            let e = self.entries.remove(m);
            self.current_size = self.current_size - e.size_bytes;
        }

        proof {
            assert(evict_to_fit(self.entries@, size as int, self.max_cache_size as int)
                == self.entries@);
            if self.entries@.len() == 0 {
                assert(sum_sizes(self.entries@) == 0);
            }
        }

        let entry = CacheEntry {
            layer_id,
            data,
            last_accessed: now,
            access_count: 1,
            size_bytes: size,
        };
        let ghost before_push = self.entries@;
        self.entries.push(entry);
        self.current_size = self.current_size + size;
        proof {
            assert(self.entries@.drop_last() =~= before_push);
            assert(self.entries@.last() == self.entries@[self.entries@.len() - 1]);
            assert forall|a: int, b: int|
                0 <= a < b < self.entries@.len() implies entry_key(self.entries@[a]) != entry_key(
                self.entries@[b],
            ) by {
                if b < self.entries@.len() - 1 {
                    assert(entry_key(before_push[a]) != entry_key(before_push[b]));
                } else {
                    assert(entry_key(before_push[a]) != layer_id@);
                }
            }
        }
        Ok(())
    }

    fn find_min_accessed(&self) -> (r: usize)
        requires
            self.view_entries().len() > 0,
        ensures
            r as int == min_accessed_index(self.view_entries()),
    {
        let n = self.entries.len();
        let mut m: usize = 0;
        let mut i: usize = 1;
        while i < n
            invariant
                1 <= i <= n,
                n == self.entries@.len(),
                m < i,
                m as int == min_accessed_index(self.entries@.take(i as int)),
            decreases n - i,
        {
            proof {
                assert(self.entries@.take(i + 1).drop_last() =~= self.entries@.take(i as int));
                assert(self.entries@.take(i + 1).last() == self.entries@[i as int]);
                lemma_min_accessed_index_in_range(self.entries@.take(i as int));
            }
            if self.entries[i].last_accessed < self.entries[m].last_accessed {
                m = i;
            }
            i = i + 1;
        }
        proof {
            assert(self.entries@.take(n as int) =~= self.entries@);
        }
        m
    }

    /// Ensures each listed layer is resident, inserting placeholder bytes
    /// for any that is not. When the placeholders fit beside what is already
    /// resident, every listed layer is resident afterwards.
    pub fn prefetch_layers(&mut self, layer_ids: &[String], now: u64) -> (r: Result<
        (),
        AgentError,
    >)
        requires
            old(self).wf(),
        ensures
            final(self).wf(),
            final(self).budget() == old(self).budget(),
            r is Ok,
            sum_sizes(old(self).view_entries()) + layer_ids@.len() * 1048576 <= old(self).budget()
                ==> forall|j: int|
                0 <= j < layer_ids@.len() ==> key_index(
                    final(self).view_entries(),
                    (#[trigger] layer_ids@[j])@,
                ) != -1,
    {
        let ghost fits = sum_sizes(old(self).view_entries()) + layer_ids@.len() * 1048576 <= old(
            self,
        ).budget();
        let n = layer_ids.len();
        for i in 0..n
            invariant
                self.wf(),
                n == layer_ids@.len(),
                self.budget() == old(self).budget(),
                fits == (sum_sizes(old(self).view_entries()) + layer_ids@.len() * 1048576 <= old(
                    self,
                ).budget()),
                fits ==> sum_sizes(self.view_entries()) <= sum_sizes(old(self).view_entries()) + i
                    * 1048576,
                fits ==> forall|j: int|
                    0 <= j < i ==> key_index(self.view_entries(), (#[trigger] layer_ids@[j])@)
                        != -1,
        {
            if !self.contains_key(layer_ids[i].as_str()) {
                let ghost pre = self.view_entries();
                let mock_data: Vec<u8> = vec_zeroes(1024 * 1024);
                let id = layer_ids[i].clone();
                let _ = self.put(id, mock_data, now);
                proof {
                    if fits {
                        // The fresh placeholder fits, so nothing is evicted
                        // and every earlier layer stays findable.
                        assert(remove_key(pre, layer_ids@[i as int]@) == pre);
                        assert(sum_sizes(pre) + 1048576 <= old(self).budget());
                        assert(evict_to_fit(pre, 1048576, old(self).budget() as int) == pre);
                        let cur = self.view_entries();
                        assert(cur == pre.push(cur.last()));
                        assert(entry_key(cur.last()) == layer_ids@[i as int]@);
                        assert forall|j: int| 0 <= j < i + 1 implies key_index(
                            cur,
                            (#[trigger] layer_ids@[j])@,
                        ) != -1 by {
                            if j < i {
                                lemma_key_index_push(pre, cur.last(), layer_ids@[j]@);
                            } else {
                                lemma_key_index_props(cur, layer_ids@[i as int]@);
                                if key_index(cur, layer_ids@[i as int]@) == -1 {
                                    assert(entry_key(cur[cur.len() - 1]) != layer_ids@[
                                    i as int]@);
                                }
                            }
                        }
                        assert(sum_sizes(cur) == sum_sizes(pre) + 1048576) by {
                            assert(cur.drop_last() =~= pre);
                            assert(cur.last().size_bytes == 1048576);
                        }
                        assert(sum_sizes(cur) <= sum_sizes(old(self).view_entries()) + (i + 1)
                            * 1048576);
                    }
                }
            } else {
                proof {
                    if fits {
                        assert(key_index(self.view_entries(), layer_ids@[i as int]@) != -1);
                        assert(sum_sizes(self.view_entries()) <= sum_sizes(
                            old(self).view_entries(),
                        ) + (i + 1) * 1048576);
                    }
                }
            }
        }
        Ok(())
    }
}

/// Compares two strings character by character.
pub fn chars_eq(a: &str, b: &str) -> (r: bool)
    ensures
        r == (a@ == b@),
{
    let an = a.unicode_len();
    let bn = b.unicode_len();
    if an != bn {
        proof {
            assert(a@ != b@);
        }
        return false;
    }
    for i in 0..an
        invariant
            an == a@.len(),
            an == b@.len(),
            forall|j: int| 0 <= j < i ==> a@[j] == b@[j],
    {
        if a.get_char(i) != b.get_char(i) {
            return false;
        }
    }
    proof {
        assert(a@ =~= b@);
    }
    true
}

/// A fresh copy of a byte vector.
pub(crate) fn clone_bytes(v: &Vec<u8>) -> (r: Vec<u8>)
    ensures
        r@ == v@,
{
    let mut r: Vec<u8> = Vec::new();
    let n = v.len();
    for i in 0..n
        invariant
            n == v@.len(),
            r@ == v@.take(i as int),
    {
        r.push(v[i]);
        proof {
            assert(v@.take(i + 1) =~= v@.take(i as int).push(v@[i as int]));
        }
    }
    proof {
        assert(v@.take(n as int) =~= v@);
    }
    r
}

/// A vector of `n` zero bytes.
fn vec_zeroes(n: usize) -> (r: Vec<u8>)
    ensures
        r@.len() == n,
        forall|i: int| 0 <= i < n ==> r@[i] == 0u8,
{
    let mut r: Vec<u8> = Vec::new();
    for i in 0..n
        invariant
            r@.len() == i,
            forall|j: int| 0 <= j < i ==> r@[j] == 0u8,
    {
        r.push(0u8);
    }
    r
}

} // verus!

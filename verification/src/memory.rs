//! The memory service: a keyed byte store with per-entry expiry and an
//! optional XOR cipher over a fixed 32-byte key.

use vstd::prelude::*;

use crate::domain::MemoryEntry;
use crate::errors::AgentError;

verus! {

/// The fixed 32-byte cipher key.
pub open spec fn cipher_key() -> Seq<u8> {
    seq![0x6fu8, 0x68u8, 0x6du8, 0x73u8, 0x5fu8, 0x61u8, 0x67u8, 0x65u8, 0x6eu8, 0x74u8, 0x5fu8, 0x6bu8, 0x65u8, 0x79u8, 0x5fu8, 0x33u8, 0x32u8, 0x5fu8, 0x62u8, 0x79u8, 0x74u8, 0x65u8, 0x73u8, 0x5fu8, 0x65u8, 0x78u8, 0x61u8, 0x63u8, 0x74u8, 0x6cu8, 0x79u8, 0x21u8]
}

/// The XOR cipher: byte `i` is combined with key byte `i` modulo 32.
/// Applying it twice gives the input back.
pub open spec fn xor_cipher_spec(data: Seq<u8>) -> Seq<u8> {
    Seq::new(data.len(), |i: int| data[i] ^ cipher_key()[i % 32])
}

/// Applying the cipher twice gives the input back.
pub proof fn lemma_xor_cipher_involution(data: Seq<u8>)
    ensures
        xor_cipher_spec(xor_cipher_spec(data)) == data,
{
    assert forall|i: int| 0 <= i < data.len() implies xor_cipher_spec(xor_cipher_spec(data))[i]
        == data[i] by {
        let k = cipher_key()[i % 32];
        let d = data[i];
        assert((d ^ k) ^ k == d) by (bit_vector);
    }
    assert(xor_cipher_spec(xor_cipher_spec(data)) =~= data);
}

fn cipher_key_exec() -> (k: Vec<u8>)
    ensures
        k@ == cipher_key(),
{
    let mut k: Vec<u8> = Vec::new();
    k.push(0x6fu8);
    k.push(0x68u8);
    k.push(0x6du8);
    k.push(0x73u8);
    k.push(0x5fu8);
    k.push(0x61u8);
    k.push(0x67u8);
    k.push(0x65u8);
    k.push(0x6eu8);
    k.push(0x74u8);
    k.push(0x5fu8);
    k.push(0x6bu8);
    k.push(0x65u8);
    k.push(0x79u8);
    k.push(0x5fu8);
    k.push(0x33u8);
    k.push(0x32u8);
    k.push(0x5fu8);
    k.push(0x62u8);
    k.push(0x79u8);
    k.push(0x74u8);
    k.push(0x65u8);
    k.push(0x73u8);
    k.push(0x5fu8);
    k.push(0x65u8);
    k.push(0x78u8);
    k.push(0x61u8);
    k.push(0x63u8);
    k.push(0x74u8);
    k.push(0x6cu8);
    k.push(0x79u8);
    k.push(0x21u8);
    proof {
        assert(k@ =~= cipher_key());
    }
    k
}

/// The key of a memory entry.
pub open spec fn mem_key(e: MemoryEntry) -> Seq<char> {
    e.key@
}

/// The index of the first entry keyed `k`, or -1.
pub open spec fn mem_key_index(s: Seq<MemoryEntry>, k: Seq<char>) -> int
    decreases s.len(),
{
    if s.len() == 0 {
        -1
    } else if mem_key(s.first()) == k {
        0
    } else if mem_key_index(s.drop_first(), k) == -1 {
        -1
    } else {
        mem_key_index(s.drop_first(), k) + 1
    }
}

/// The sequence with the entry keyed `k` taken out, if present.
pub open spec fn mem_remove_key(s: Seq<MemoryEntry>, k: Seq<char>) -> Seq<MemoryEntry> {
    if mem_key_index(s, k) == -1 {
        s
    } else {
        s.remove(mem_key_index(s, k))
    }
}

/// The entries that have not expired by `now`.
pub open spec fn live_entries(s: Seq<MemoryEntry>, now: u64) -> Seq<MemoryEntry>
    decreases s.len(),
{
    if s.len() == 0 {
        Seq::empty()
    } else if s.last().expires_at > now {
        live_entries(s.drop_last(), now).push(s.last())
    } else {
        live_entries(s.drop_last(), now)
    }
}

/// The total stored bytes over all entries.
pub open spec fn mem_total_size(s: Seq<MemoryEntry>) -> int
    decreases s.len(),
{
    if s.len() == 0 {
        0
    } else {
        mem_total_size(s.drop_last()) + s.last().data@.len()
    }
}

/// How many entries are stored encrypted.
pub open spec fn mem_encrypted_count(s: Seq<MemoryEntry>) -> int
    decreases s.len(),
{
    if s.len() == 0 {
        0
    } else {
        mem_encrypted_count(s.drop_last()) + (if s.last().encrypted {
            1int
        } else {
            0int
        })
    }
}

/// The expiry instant of an entry stored at `now` with a lifetime of
/// `ttl_seconds`, in nanoseconds, saturated at the end of time.
pub open spec fn expiry_of(now: u64, ttl_seconds: u64) -> u64 {
    if now + ttl_seconds * 1000000000 <= u64::MAX {
        (now + ttl_seconds * 1000000000) as u64
    } else {
        u64::MAX
    }
}

/// A read-only snapshot of the store.
#[derive(Debug, Clone)]
pub struct MemoryStats {
    pub active_entries: usize,
    pub total_entries: usize,
    pub total_size_bytes: u128,
    pub encrypted_entries: usize,
}

proof fn lemma_mem_key_index_props(s: Seq<MemoryEntry>, k: Seq<char>)
    ensures
        mem_key_index(s, k) == -1 ==> forall|j: int| 0 <= j < s.len() ==> mem_key(s[j]) != k,
        mem_key_index(s, k) != -1 ==> {
            let i = mem_key_index(s, k);
            &&& 0 <= i < s.len()
            &&& mem_key(s[i]) == k
        },
    decreases s.len(),
{
    if s.len() > 0 {
        lemma_mem_key_index_props(s.drop_first(), k);
        let t = s.drop_first();
        if mem_key(s.first()) != k {
            if mem_key_index(t, k) == -1 {
                assert forall|j: int| 0 <= j < s.len() implies mem_key(s[j]) != k by {
                    if j > 0 {
                        assert(mem_key(t[j - 1]) != k);
                    }
                }
            } else {
                let i = mem_key_index(s, k);
                assert(s[i] == t[i - 1]);
            }
        }
    }
}

proof fn lemma_mem_key_index_found(s: Seq<MemoryEntry>, k: Seq<char>, i: int)
    requires
        0 <= i < s.len(),
        mem_key(s[i]) == k,
        forall|j: int| 0 <= j < i ==> mem_key(s[j]) != k,
    ensures
        mem_key_index(s, k) == i,
    decreases s.len(),
{
    if i > 0 {
        lemma_mem_key_index_found(s.drop_first(), k, i - 1);
    }
}

proof fn lemma_mem_key_index_none(s: Seq<MemoryEntry>, k: Seq<char>)
    requires
        forall|j: int| 0 <= j < s.len() ==> mem_key(s[j]) != k,
    ensures
        mem_key_index(s, k) == -1,
    decreases s.len(),
{
    if s.len() > 0 {
        lemma_mem_key_index_none(s.drop_first(), k);
    }
}

/// The keyed byte store with expiry.
pub struct MemoryService {
    entries: Vec<MemoryEntry>,
}

impl MemoryService {
    /// The stored entries, oldest insertion first.
    pub closed spec fn view_entries(self) -> Seq<MemoryEntry> {
        self.entries@
    }

    /// An empty store.
    pub fn new() -> (r: MemoryService)
        ensures
            r.view_entries() == Seq::<MemoryEntry>::empty(),
    {
        let r = MemoryService { entries: Vec::new() };
        proof {
            assert(r.entries@ =~= Seq::<MemoryEntry>::empty());
        }
        r
    }

    fn find_key(&self, key: &str) -> (r: Option<usize>)
        ensures
            match r {
                Some(i) => mem_key_index(self.view_entries(), key@) == i as int,
                None => mem_key_index(self.view_entries(), key@) == -1,
            },
    {
        let n = self.entries.len();
        for i in 0..n
            invariant
                n == self.entries@.len(),
                forall|j: int| 0 <= j < i ==> mem_key(self.entries@[j]) != key@,
        {
            if crate::cache::chars_eq(self.entries[i].key.as_str(), key) {
                proof {
                    lemma_mem_key_index_found(self.entries@, key@, i as int);
                }
                return Some(i);
            }
        }
        proof {
            lemma_mem_key_index_none(self.entries@, key@);
        }
        None
    }

    /// Stores bytes under a key, enciphered when asked, replacing whatever
    /// the key held. The entry expires `ttl_seconds` after `now`.
    pub fn store(&mut self, key: String, data: Vec<u8>, ttl_seconds: u64, encrypt: bool, now: u64)
        -> (r: Result<(), AgentError>)
        ensures
            r is Ok,
            final(self).view_entries().len() == mem_remove_key(old(self).view_entries(), key@).len()
                + 1,
            final(self).view_entries().drop_last() == mem_remove_key(
                old(self).view_entries(),
                key@,
            ),
            ({
                let e = final(self).view_entries().last();
                &&& e.key == key
                &&& e.data@ == (if encrypt {
                    xor_cipher_spec(data@)
                } else {
                    data@
                })
                &&& e.created_at == now
                &&& e.expires_at == expiry_of(now, ttl_seconds)
                &&& e.encrypted == encrypt
            }),
    {
        let stored = if encrypt {
            Self::encrypt_data(data.as_slice())
        } else {
            data
        };
        match self.find_key(key.as_str()) {
            None => {},
            Some(i) => {
                proof {
                    lemma_mem_key_index_props(self.entries@, key@);
                }
                let _ = self.entries.remove(i);
            },
        }
        let ttl_ns = match ttl_seconds.checked_mul(1000000000) {
            Some(v) => v,
            None => u64::MAX,
        };
        let expires_at = now.saturating_add(ttl_ns);
        proof {
            assert(expires_at == expiry_of(now, ttl_seconds));
        }
        let entry = MemoryEntry {
            key,
            data: stored,
            created_at: now,
            expires_at,
            encrypted: encrypt,
        };
        self.entries.push(entry);
        proof {
            assert(self.entries@.drop_last() =~= mem_remove_key(old(self).view_entries(), key@));
        }
        Ok(())
    }

    /// Fetches the bytes stored under a key, deciphering when they were
    /// stored enciphered. An entry past its expiry is removed and reported
    /// as absent, as is a key that was never stored.
    pub fn retrieve(&mut self, key: &str, now: u64) -> (r: Result<Vec<u8>, AgentError>)
        ensures
            ({
                let idx = mem_key_index(old(self).view_entries(), key@);
                if idx == -1 {
                    &&& r is Err
                    &&& r->Err_0 == AgentError::NotFound
                    &&& *final(self) == *old(self)
                } else {
                    let e = old(self).view_entries()[idx];
                    if e.expires_at > now {
                        &&& r is Ok
                        &&& r.unwrap()@ == (if e.encrypted {
                            xor_cipher_spec(e.data@)
                        } else {
                            e.data@
                        })
                        &&& *final(self) == *old(self)
                    } else {
                        &&& r is Err
                        &&& r->Err_0 == AgentError::NotFound
                        &&& final(self).view_entries() == old(self).view_entries().remove(idx)
                    }
                }
            }),
    {
        match self.find_key(key) {
            None => Err(AgentError::NotFound),
            Some(i) => {
                proof {
                    lemma_mem_key_index_props(self.entries@, key@);
                }
                if self.entries[i].expires_at > now {
                    let out = if self.entries[i].encrypted {
                        Self::decrypt_data(self.entries[i].data.as_slice())
                    } else {
                        crate::cache::clone_bytes(&self.entries[i].data)
                    };
                    Ok(out)
                } else {
                    let _ = self.entries.remove(i);
                    Err(AgentError::NotFound)
                }
            },
        }
    }

    /// Drops every entry whose expiry has passed.
    pub fn clear_expired(&mut self, now: u64)
        ensures
            final(self).view_entries() == live_entries(old(self).view_entries(), now),
    {
        let ghost orig = self.entries@;
        let mut i: usize = 0;
        let ghost j: int = 0;
        let mut consumed: Ghost<int> = Ghost(0);
        while i < self.entries.len()
            invariant
                0 <= consumed@ <= orig.len(),
                i == live_entries(orig.take(consumed@), now).len(),
                self.entries@ =~= live_entries(orig.take(consumed@), now) + orig.skip(consumed@),
            decreases orig.len() - consumed@,
        {
            proof {
                lemma_live_len_le(orig.take(consumed@), now);
                assert(self.entries@[i as int] == orig.skip(consumed@)[0]);
                assert(orig.skip(consumed@)[0] == orig[consumed@]);
                assert(orig.take(consumed@ + 1).drop_last() =~= orig.take(consumed@));
                assert(orig.take(consumed@ + 1).last() == orig[consumed@]);
            }
            if self.entries[i].expires_at > now {
                proof {
                    assert(live_entries(orig.take(consumed@ + 1), now) =~= live_entries(
                        orig.take(consumed@),
                        now,
                    ).push(orig[consumed@]));
                    assert(orig.skip(consumed@).drop_first() =~= orig.skip(consumed@ + 1));
                }
                i = i + 1;
            } else {
                proof {
                    assert(live_entries(orig.take(consumed@ + 1), now) =~= live_entries(
                        orig.take(consumed@),
                        now,
                    ));
                    assert(orig.skip(consumed@).drop_first() =~= orig.skip(consumed@ + 1));
                }
                let _ = self.entries.remove(i);
            }
            proof {
                consumed@ = consumed@ + 1;
            }
        }
        proof {
            assert(consumed@ == orig.len());
            assert(orig.take(orig.len() as int) =~= orig);
            assert(orig.skip(orig.len() as int) =~= Seq::<MemoryEntry>::empty());
            assert(self.entries@ =~= live_entries(orig, now));
        }
    }

    /// A snapshot of the store: live entries, all entries, stored bytes,
    /// and enciphered entries.
    pub fn get_stats(&self, now: u64) -> (r: MemoryStats)
        ensures
            r.active_entries == live_entries(self.view_entries(), now).len(),
            r.total_entries == self.view_entries().len(),
            r.total_size_bytes == mem_total_size(self.view_entries()),
            r.encrypted_entries == mem_encrypted_count(self.view_entries()),
    {
        let n = self.entries.len();
        let mut active: usize = 0;
        let mut size: u128 = 0;
        let mut encrypted: usize = 0;
        let mut i: usize = 0;
        while i < n
            invariant
                i <= n,
                n == self.entries@.len(),
                active == live_entries(self.entries@.take(i as int), now).len(),
                size == mem_total_size(self.entries@.take(i as int)),
                size <= (i as int) * 0xffff_ffff_ffff_ffff,
                encrypted == mem_encrypted_count(self.entries@.take(i as int)),
            decreases n - i,
        {
            proof {
                assert(self.entries@.take(i + 1).drop_last() =~= self.entries@.take(i as int));
                assert(self.entries@.take(i + 1).last() == self.entries@[i as int]);
                lemma_mem_total_size_nonneg(self.entries@.take(i as int));
                lemma_live_len_le(self.entries@.take(i as int), now);
                lemma_mem_encrypted_le(self.entries@.take(i as int));
                assert(self.entries@.take(i as int).len() == i as int);
            }
            if self.entries[i].expires_at > now {
                active = active + 1;
            }
            let added = self.entries[i].data.len();
            proof {
                assert((added as u128) <= 0xffff_ffff_ffff_ffffu128);
                assert((i as int) * 0xffff_ffff_ffff_ffff + 0xffff_ffff_ffff_ffff == ((
                i as int) + 1) * 0xffff_ffff_ffff_ffff) by (nonlinear_arith);
                assert(((i as int) + 1) * 0xffff_ffff_ffff_ffff <= 0xffff_ffff_ffff_ffffint
                    * 0xffff_ffff_ffff_ffff) by (nonlinear_arith)
                    requires
                        (i as int) + 1 <= 0xffff_ffff_ffff_ffff,
                ;
            }
            size = size + (added as u128);
            if self.entries[i].encrypted {
                encrypted = encrypted + 1;
            }
            i = i + 1;
        }
        proof {
            assert(self.entries@.take(n as int) =~= self.entries@);
        }
        MemoryStats {
            active_entries: active,
            total_entries: n,
            total_size_bytes: size,
            encrypted_entries: encrypted,
        }
    }

    /// Enciphers bytes with the fixed XOR key.
    pub fn encrypt_data(data: &[u8]) -> (r: Vec<u8>)
        ensures
            r@ == xor_cipher_spec(data@),
    {
        let key = cipher_key_exec();
        let mut r: Vec<u8> = Vec::new();
        let n = data.len();
        for i in 0..n
            invariant
                n == data@.len(),
                key@ == cipher_key(),
                r@.len() == i,
                forall|j: int| 0 <= j < i ==> r@[j] == data@[j] ^ cipher_key()[j % 32],
        {
            r.push(data[i] ^ key[i % 32]);
        }
        proof {
            assert(r@ =~= xor_cipher_spec(data@));
        }
        r
    }

    /// Deciphers bytes: the same XOR pass.
    pub fn decrypt_data(data: &[u8]) -> (r: Vec<u8>)
        ensures
            r@ == xor_cipher_spec(data@),
    {
        Self::encrypt_data(data)
    }
}

proof fn lemma_mem_total_size_nonneg(s: Seq<MemoryEntry>)
    ensures
        mem_total_size(s) >= 0,
    decreases s.len(),
{
    if s.len() > 0 {
        lemma_mem_total_size_nonneg(s.drop_last());
    }
}

proof fn lemma_live_len_le(s: Seq<MemoryEntry>, now: u64)
    ensures
        0 <= live_entries(s, now).len() <= s.len(),
    decreases s.len(),
{
    if s.len() > 0 {
        lemma_live_len_le(s.drop_last(), now);
    }
}

proof fn lemma_mem_encrypted_le(s: Seq<MemoryEntry>)
    ensures
        0 <= mem_encrypted_count(s) <= s.len(),
    decreases s.len(),
{
    if s.len() > 0 {
        lemma_mem_encrypted_le(s.drop_last());
    }
}

} // verus!

//! Cumulative system metrics: named counters and bounded histograms of
//! integer samples. Gauges and derived statistics are continuous-scale
//! concerns and stay with the host.

use vstd::prelude::*;

verus! {

/// The value of the counter named `name`, or 0 when none is recorded.
pub open spec fn counter_of(s: Seq<(String, u64)>, name: Seq<char>) -> u64
    decreases s.len(),
{
    if s.len() == 0 {
        0u64
    } else if s.first().0@ == name {
        s.first().1
    } else {
        counter_of(s.drop_first(), name)
    }
}

/// The samples of the histogram named `name`, or the empty sequence.
pub open spec fn histogram_of(s: Seq<(String, Vec<u64>)>, name: Seq<char>) -> Seq<u64>
    decreases s.len(),
{
    if s.len() == 0 {
        Seq::empty()
    } else if s.first().0@ == name {
        s.first().1@
    } else {
        histogram_of(s.drop_first(), name)
    }
}

/// A histogram keeps at most this many samples; recording one more drops
/// the oldest.
pub const HISTOGRAM_CAP: usize = 1000;

/// The cumulative metrics store.
pub struct Metrics {
    counters: Vec<(String, u64)>,
    histograms: Vec<(String, Vec<u64>)>,
    last_updated: u64,
}

impl Metrics {
    /// The counters, as recorded.
    pub closed spec fn counters_view(self) -> Seq<(String, u64)> {
        self.counters@
    }

    /// The histograms, as recorded.
    pub closed spec fn histograms_view(self) -> Seq<(String, Vec<u64>)> {
        self.histograms@
    }

    /// When the store last changed.
    pub closed spec fn spec_last_updated(self) -> u64 {
        self.last_updated
    }

    /// An empty store.
    pub fn new() -> (r: Metrics)
        ensures
            r.counters_view() == Seq::<(String, u64)>::empty(),
            r.histograms_view() == Seq::<(String, Vec<u64>)>::empty(),
            r.spec_last_updated() == 0,
    {
        let r = Metrics { counters: Vec::new(), histograms: Vec::new(), last_updated: 0 };
        proof {
            assert(r.counters@ =~= Seq::<(String, u64)>::empty());
            assert(r.histograms@ =~= Seq::<(String, Vec<u64>)>::empty());
        }
        r
    }

    /// Adds `value` to the counter named `name`, creating it at zero first;
    /// the count saturates rather than wraps. No other counter moves.
    pub fn add_to_counter(&mut self, name: &str, value: u64, now: u64)
        ensures
            counter_of(final(self).counters_view(), name@) == (if counter_of(
                old(self).counters_view(),
                name@,
            ) + value <= u64::MAX {
                counter_of(old(self).counters_view(), name@) + value
            } else {
                u64::MAX as int
            }),
            forall|k: Seq<char>|
                k != name@ ==> counter_of(final(self).counters_view(), k) == counter_of(
                    old(self).counters_view(),
                    k,
                ),
            final(self).histograms_view() == old(self).histograms_view(),
            final(self).spec_last_updated() == now,
    {
        let n = self.counters.len();
        let ghost s0 = self.counters@;
        let mut i: usize = 0;
        while i < n
            invariant
                i <= n,
                n == self.counters@.len(),
                s0 == self.counters@,
                s0 == old(self).counters_view(),
                self.histograms@ == old(self).histograms_view(),
                self.last_updated == old(self).spec_last_updated(),
                forall|j: int| 0 <= j < i ==> s0[j].0@ != name@,
            decreases n - i,
        {
            if crate::cache::chars_eq(self.counters[i].0.as_str(), name) {
                let updated = self.counters[i].1.saturating_add(value);
                let nm = self.counters[i].0.clone();
                let ghost before = self.counters@;
                let ghost oldval = self.counters@[i as int].1;
                let _ = self.counters.remove(i);
                self.counters.insert(i, (nm, updated));
                self.last_updated = now;
                proof {
                    let s2 = self.counters@;
                    assert(s2 =~= before.remove(i as int).insert(i as int, s2[i as int]));
                    assert(s2 =~= before.update(i as int, s2[i as int]));
                    assert(s2[i as int].0@ == name@);
                    assert(s2[i as int].1 == updated);
                    lemma_counter_update(before, s2, i as int, name@);
                    assert(counter_of(before, name@) == oldval);
                }
                return ;
            }
            i = i + 1;
        }
        self.counters.push((name.to_owned(), value));
        self.last_updated = now;
        proof {
            let s2 = self.counters@;
            assert(s2.drop_last() =~= s0);
            let e = s2.last();
            assert(s2 =~= s0.push(e));
            assert(e.0@ == name@);
            assert(e.1 == value);
            lemma_counter_append(s0, name@, e);
        }
    }

    /// Adds one to the counter named `name`.
    pub fn increment_counter(&mut self, name: &str, now: u64)
        ensures
            counter_of(final(self).counters_view(), name@) == (if counter_of(
                old(self).counters_view(),
                name@,
            ) + 1 <= u64::MAX {
                counter_of(old(self).counters_view(), name@) + 1
            } else {
                u64::MAX as int
            }),
            forall|k: Seq<char>|
                k != name@ ==> counter_of(final(self).counters_view(), k) == counter_of(
                    old(self).counters_view(),
                    k,
                ),
            final(self).histograms_view() == old(self).histograms_view(),
            final(self).spec_last_updated() == now,
    {
        self.add_to_counter(name, 1, now);
    }

    /// Counts one served inference.
    pub fn increment_inference_count(&mut self, now: u64)
        ensures
            counter_of(final(self).counters_view(), "inferences_total"@) == (if counter_of(
                old(self).counters_view(),
                "inferences_total"@,
            ) + 1 <= u64::MAX {
                counter_of(old(self).counters_view(), "inferences_total"@) + 1
            } else {
                u64::MAX as int
            }),
            forall|k: Seq<char>|
                k != "inferences_total"@ ==> counter_of(final(self).counters_view(), k)
                    == counter_of(old(self).counters_view(), k),
            final(self).histograms_view() == old(self).histograms_view(),
            final(self).spec_last_updated() == now,
    {
        self.increment_counter("inferences_total", now);
    }

    /// Counts one cache hit.
    pub fn increment_cache_hit(&mut self, now: u64)
        ensures
            counter_of(final(self).counters_view(), "cache_hits_total"@) == (if counter_of(
                old(self).counters_view(),
                "cache_hits_total"@,
            ) + 1 <= u64::MAX {
                counter_of(old(self).counters_view(), "cache_hits_total"@) + 1
            } else {
                u64::MAX as int
            }),
            forall|k: Seq<char>|
                k != "cache_hits_total"@ ==> counter_of(final(self).counters_view(), k)
                    == counter_of(old(self).counters_view(), k),
            final(self).histograms_view() == old(self).histograms_view(),
            final(self).spec_last_updated() == now,
    {
        self.increment_counter("cache_hits_total", now);
    }

    /// Counts one cache miss.
    pub fn increment_cache_miss(&mut self, now: u64)
        ensures
            counter_of(final(self).counters_view(), "cache_misses_total"@) == (if counter_of(
                old(self).counters_view(),
                "cache_misses_total"@,
            ) + 1 <= u64::MAX {
                counter_of(old(self).counters_view(), "cache_misses_total"@) + 1
            } else {
                u64::MAX as int
            }),
            forall|k: Seq<char>|
                k != "cache_misses_total"@ ==> counter_of(final(self).counters_view(), k)
                    == counter_of(old(self).counters_view(), k),
            final(self).histograms_view() == old(self).histograms_view(),
            final(self).spec_last_updated() == now,
    {
        self.increment_counter("cache_misses_total", now);
    }

    /// Adds a batch of generated tokens to the running total.
    pub fn record_tokens_generated(&mut self, count: u32, now: u64)
        ensures
            counter_of(final(self).counters_view(), "tokens_generated_total"@) == (if counter_of(
                old(self).counters_view(),
                "tokens_generated_total"@,
            ) + count <= u64::MAX {
                counter_of(old(self).counters_view(), "tokens_generated_total"@) + count
            } else {
                u64::MAX as int
            }),
            forall|k: Seq<char>|
                k != "tokens_generated_total"@ ==> counter_of(final(self).counters_view(), k)
                    == counter_of(old(self).counters_view(), k),
            final(self).histograms_view() == old(self).histograms_view(),
            final(self).spec_last_updated() == now,
    {
        self.add_to_counter("tokens_generated_total", count as u64, now);
    }

    /// The value of the counter named `name`, or 0.
    pub fn get_counter(&self, name: &str) -> (r: u64)
        ensures
            r == counter_of(self.counters_view(), name@),
    {
        let n = self.counters.len();
        let ghost s0 = self.counters@;
        let mut i: usize = 0;
        proof {
            assert(s0.skip(0) == s0);
        }
        while i < n
            invariant
                i <= n,
                n == self.counters@.len(),
                s0 == self.counters@,
                counter_of(s0, name@) == counter_of(s0.skip(i as int), name@),
            decreases n - i,
        {
            proof {
                assert(s0.skip(i as int).first() == s0[i as int]);
                assert(s0.skip(i as int).drop_first() =~= s0.skip(i + 1));
            }
            if crate::cache::chars_eq(self.counters[i].0.as_str(), name) {
                return self.counters[i].1;
            }
            i = i + 1;
        }
        proof {
            assert(s0.skip(n as int).len() == 0);
        }
        0
    }

    /// The samples of the histogram named `name`, oldest first, or `None`
    /// when none was ever recorded.
    pub fn get_histogram(&self, name: &str) -> (r: Option<Vec<u64>>)
        ensures
            match r {
                Some(h) => h@ == histogram_of(self.histograms_view(), name@),
                None => histogram_of(self.histograms_view(), name@) == Seq::<u64>::empty(),
            },
    {
        let n = self.histograms.len();
        let ghost s0 = self.histograms@;
        let mut i: usize = 0;
        proof {
            assert(s0.skip(0) == s0);
        }
        while i < n
            invariant
                i <= n,
                n == self.histograms@.len(),
                s0 == self.histograms@,
                histogram_of(s0, name@) == histogram_of(s0.skip(i as int), name@),
            decreases n - i,
        {
            proof {
                assert(s0.skip(i as int).first() == s0[i as int]);
                assert(s0.skip(i as int).drop_first() =~= s0.skip(i + 1));
            }
            if crate::cache::chars_eq(self.histograms[i].0.as_str(), name) {
                let mut out: Vec<u64> = Vec::new();
                let m = self.histograms[i].1.len();
                for k in 0..m
                    invariant
                        i < self.histograms@.len(),
                        m == self.histograms@[i as int].1@.len(),
                        out@ == self.histograms@[i as int].1@.take(k as int),
                {
                    out.push(self.histograms[i].1[k]);
                    proof {
                        assert(self.histograms@[i as int].1@.take(k + 1)
                            =~= self.histograms@[i as int].1@.take(k as int).push(
                            self.histograms@[i as int].1@[k as int],
                        ));
                    }
                }
                proof {
                    assert(self.histograms@[i as int].1@.take(m as int)
                        =~= self.histograms@[i as int].1@);
                }
                return Some(out);
            }
            i = i + 1;
        }
        proof {
            assert(s0.skip(n as int).len() == 0);
        }
        None
    }

    /// Records one sample of the histogram named `name`, keeping only the
    /// newest `HISTOGRAM_CAP` samples. No other histogram moves.
    pub fn record_histogram(&mut self, name: &str, value: u64, now: u64)
        ensures
            ({
                let grown = histogram_of(old(self).histograms_view(), name@).push(value);
                histogram_of(final(self).histograms_view(), name@) == (if grown.len()
                    > HISTOGRAM_CAP {
                    grown.drop_first()
                } else {
                    grown
                })
            }),
            forall|k: Seq<char>|
                k != name@ ==> histogram_of(final(self).histograms_view(), k) == histogram_of(
                    old(self).histograms_view(),
                    k,
                ),
            final(self).counters_view() == old(self).counters_view(),
            final(self).spec_last_updated() == now,
    {
        let n = self.histograms.len();
        let ghost s0 = self.histograms@;
        let mut i: usize = 0;
        while i < n
            invariant
                i <= n,
                n == self.histograms@.len(),
                s0 == self.histograms@,
                s0 == old(self).histograms_view(),
                self.counters@ == old(self).counters_view(),
                self.last_updated == old(self).spec_last_updated(),
                forall|j: int| 0 <= j < i ==> s0[j].0@ != name@,
            decreases n - i,
        {
            if crate::cache::chars_eq(self.histograms[i].0.as_str(), name) {
                let ghost before = self.histograms@;
                let (nm, mut hist) = self.histograms.remove(i);
                let ghost oldhist = hist@;
                hist.push(value);
                if hist.len() > HISTOGRAM_CAP {
                    let _ = hist.remove(0);
                    proof {
                        assert(hist@ =~= oldhist.push(value).drop_first());
                    }
                }
                self.histograms.insert(i, (nm, hist));
                self.last_updated = now;
                proof {
                    let s2 = self.histograms@;
                    assert(s2 =~= before.remove(i as int).insert(i as int, s2[i as int]));
                    assert(s2 =~= before.update(i as int, s2[i as int]));
                    assert(s2[i as int].0@ == name@);
                    assert(s2[i as int].1@ == hist@);
                    lemma_histogram_update(before, s2, i as int, name@);
                    assert(histogram_of(before, name@) == oldhist);
                }
                return ;
            }
            i = i + 1;
        }
        let mut hist: Vec<u64> = Vec::new();
        hist.push(value);
        proof {
            assert(hist@ =~= Seq::<u64>::empty().push(value));
        }
        self.histograms.push((name.to_owned(), hist));
        self.last_updated = now;
        proof {
            let s2 = self.histograms@;
            assert(s2.drop_last() =~= s0);
            let e = s2.last();
            assert(s2 =~= s0.push(e));
            assert(e.0@ == name@);
            lemma_histogram_append(s0, name@, e);
            assert(histogram_of(s0, name@).push(value) =~= e.1@);
        }
    }

    /// Records one inference duration, in milliseconds.
    pub fn record_inference_time(&mut self, time_ms: u64, now: u64)
        ensures
            ({
                let grown = histogram_of(old(self).histograms_view(), "inference_time_ms"@).push(
                    time_ms,
                );
                histogram_of(final(self).histograms_view(), "inference_time_ms"@) == (if grown.len()
                    > HISTOGRAM_CAP {
                    grown.drop_first()
                } else {
                    grown
                })
            }),
            forall|k: Seq<char>|
                k != "inference_time_ms"@ ==> histogram_of(final(self).histograms_view(), k)
                    == histogram_of(old(self).histograms_view(), k),
            final(self).counters_view() == old(self).counters_view(),
            final(self).spec_last_updated() == now,
    {
        self.record_histogram("inference_time_ms", time_ms, now);
    }
}

/// Updating the entry at the first index carrying `name` changes that
/// counter alone.
proof fn lemma_counter_update(s1: Seq<(String, u64)>, s2: Seq<(String, u64)>, i: int, name: Seq<
    char,
>)
    requires
        0 <= i < s1.len(),
        s2.len() == s1.len(),
        forall|j: int| 0 <= j < i ==> s1[j].0@ != name,
        s1[i].0@ == name,
        s2[i].0@ == name,
        forall|j: int| 0 <= j < s1.len() && j != i ==> s2[j] == s1[j],
        forall|j: int| 0 <= j < i ==> s2[j].0@ != name,
    ensures
        counter_of(s2, name) == s2[i].1,
        counter_of(s1, name) == s1[i].1,
        forall|k: Seq<char>| k != name ==> counter_of(s2, k) == counter_of(s1, k),
    decreases s1.len(),
{
    if i == 0 {
        assert forall|k: Seq<char>| k != name implies counter_of(s2, k) == counter_of(s1, k) by {
            assert(s2.drop_first() =~= s1.drop_first());
        }
    } else {
        lemma_counter_update(s1.drop_first(), s2.drop_first(), i - 1, name);
        assert(s1.drop_first()[i - 1] == s1[i]);
        assert(s2.drop_first()[i - 1] == s2[i]);
        assert(s2[0] == s1[0]);
        assert forall|k: Seq<char>| k != name implies counter_of(s2, k) == counter_of(s1, k) by {
            assert(counter_of(s2.drop_first(), k) == counter_of(s1.drop_first(), k));
        }
    }
}

/// Appending a fresh counter leaves every other name's count alone.
proof fn lemma_counter_append(s: Seq<(String, u64)>, name: Seq<char>, e: (String, u64))
    requires
        forall|j: int| 0 <= j < s.len() ==> s[j].0@ != name,
        e.0@ == name,
    ensures
        counter_of(s.push(e), name) == e.1,
        forall|k: Seq<char>| k != name ==> counter_of(s.push(e), k) == counter_of(s, k),
        counter_of(s, name) == 0,
    decreases s.len(),
{
    if s.len() == 0 {
        assert(s.push(e).first() == e);
        assert(s.push(e).drop_first() =~= Seq::<(String, u64)>::empty());
        assert forall|k: Seq<char>| k != name implies counter_of(s.push(e), k) == counter_of(
            s,
            k,
        ) by {
            assert(counter_of(s.push(e).drop_first(), k) == 0);
        }
    } else {
        lemma_counter_append(s.drop_first(), name, e);
        assert(s.push(e).first() == s.first());
        assert(s.push(e).drop_first() =~= s.drop_first().push(e));
        assert forall|k: Seq<char>| k != name implies counter_of(s.push(e), k) == counter_of(
            s,
            k,
        ) by {
            assert(counter_of(s.drop_first().push(e), k) == counter_of(s.drop_first(), k));
        }
    }
}

proof fn lemma_histogram_update(
    s1: Seq<(String, Vec<u64>)>,
    s2: Seq<(String, Vec<u64>)>,
    i: int,
    name: Seq<char>,
)
    requires
        0 <= i < s1.len(),
        s2.len() == s1.len(),
        forall|j: int| 0 <= j < i ==> s1[j].0@ != name,
        s1[i].0@ == name,
        s2[i].0@ == name,
        forall|j: int| 0 <= j < s1.len() && j != i ==> s2[j] == s1[j],
        forall|j: int| 0 <= j < i ==> s2[j].0@ != name,
    ensures
        histogram_of(s2, name) == s2[i].1@,
        histogram_of(s1, name) == s1[i].1@,
        forall|k: Seq<char>| k != name ==> histogram_of(s2, k) == histogram_of(s1, k),
    decreases s1.len(),
{
    if i == 0 {
        assert forall|k: Seq<char>| k != name implies histogram_of(s2, k) == histogram_of(
            s1,
            k,
        ) by {
            assert(s2.drop_first() =~= s1.drop_first());
        }
    } else {
        lemma_histogram_update(s1.drop_first(), s2.drop_first(), i - 1, name);
        assert(s1.drop_first()[i - 1] == s1[i]);
        assert(s2.drop_first()[i - 1] == s2[i]);
        assert(s2[0] == s1[0]);
        assert forall|k: Seq<char>| k != name implies histogram_of(s2, k) == histogram_of(
            s1,
            k,
        ) by {
            assert(histogram_of(s2.drop_first(), k) == histogram_of(s1.drop_first(), k));
        }
    }
}

proof fn lemma_histogram_append(s: Seq<(String, Vec<u64>)>, name: Seq<char>, e: (String, Vec<u64>))
    requires
        forall|j: int| 0 <= j < s.len() ==> s[j].0@ != name,
        e.0@ == name,
    ensures
        histogram_of(s.push(e), name) == e.1@,
        forall|k: Seq<char>| k != name ==> histogram_of(s.push(e), k) == histogram_of(s, k),
        histogram_of(s, name) == Seq::<u64>::empty(),
    decreases s.len(),
{
    if s.len() == 0 {
        assert(s.push(e).first() == e);
        assert(s.push(e).drop_first() =~= Seq::<(String, Vec<u64>)>::empty());
        assert forall|k: Seq<char>| k != name implies histogram_of(s.push(e), k) == histogram_of(
            s,
            k,
        ) by {
            assert(histogram_of(s.push(e).drop_first(), k) == Seq::<u64>::empty());
        }
    } else {
        lemma_histogram_append(s.drop_first(), name, e);
        assert(s.push(e).first() == s.first());
        assert(s.push(e).drop_first() =~= s.drop_first().push(e));
        assert forall|k: Seq<char>| k != name implies histogram_of(s.push(e), k) == histogram_of(
            s,
            k,
        ) by {
            assert(histogram_of(s.drop_first().push(e), k) == histogram_of(s.drop_first(), k));
        }
    }
}

} // verus!

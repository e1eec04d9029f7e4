//! Least-recently-used cache of prompt embeddings.
//!
//! Text-encoder outputs are cached under a key derived from the prompt, so
//! that generating variations of one prompt does not re-encode it. The
//! cache holds at most `max_size` entries (at least one once something has
//! been inserted); when it is full, the least recently used entries leave
//! first. Reads and writes both count as a use.
use vstd::prelude::*;
use std::collections::hash_map::DefaultHasher;
use std::collections::{HashMap, VecDeque};
use std::hash::{Hash, Hasher};
use vstd::std_specs::hash::DefaultHasherAdditionalSpecFns;
use vstd::utf8::encode_utf8;

verus! {

broadcast use vstd::std_specs::hash::group_hash_axioms;

/// Feeds `s` to `state` through std's `Hash` impl for `str` (`<str as Hash>::hash`).
///
/// That impl writes the string's UTF-8 bytes and then the single byte `0xff`,
/// which no UTF-8 text contains, so that the written strings stay apart.
#[verifier::external_body]
fn hash_str_into(s: &str, state: &mut DefaultHasher)
    ensures
        final(state)@ == old(state)@.push(encode_utf8(s@)).push(seq![0xffu8]),
{
    s.hash(state)
}

/// The cache key of a prompt: std's `DefaultHasher` over the prompt.
pub open spec fn prompt_key(prompt: Seq<char>) -> u64 {
    DefaultHasher::spec_finish(seq![encode_utf8(prompt), seq![0xffu8]])
}

/// Hashes a prompt to its cache key.
pub fn hash_prompt(prompt: &str) -> (k: u64)
    ensures
        k == prompt_key(prompt@),
{
    let mut hasher = DefaultHasher::new();
    hash_str_into(prompt, &mut hasher);
    assert(hasher@ =~= seq![encode_utf8(prompt@), seq![0xffu8]]);
    hasher.finish()
}

/// `s` without the occurrences of `k`, order kept.
pub open spec fn without(s: Seq<u64>, k: u64) -> Seq<u64>
    decreases s.len(),
{
    if s.len() == 0 {
        s
    } else if s.last() == k {
        without(s.drop_last(), k)
    } else {
        without(s.drop_last(), k).push(s.last())
    }
}

/// The access order once full-cache eviction has run: the least recently
/// used key leaves while the cache holds at least `max_size` keys.
pub open spec fn evicted(order: Seq<u64>, max_size: nat) -> Seq<u64>
    decreases order.len(),
{
    if order.len() > 0 && order.len() >= max_size {
        evicted(order.drop_first(), max_size)
    } else {
        order
    }
}

/// The access order after `key` is inserted.
pub open spec fn order_after_insert(order: Seq<u64>, max_size: nat, key: u64) -> Seq<u64> {
    without(evicted(order, max_size), key).push(key)
}

/// The entries after `key` is inserted with `value`.
pub open spec fn entries_after_insert<E>(
    entries: Map<u64, E>,
    order: Seq<u64>,
    max_size: nat,
    key: u64,
    value: E,
) -> Map<u64, E> {
    entries.restrict(evicted(order, max_size).to_set()).insert(key, value)
}

/// The access order after a read of `key` that found it.
pub open spec fn order_after_hit(order: Seq<u64>, key: u64) -> Seq<u64> {
    without(order, key).push(key)
}

/// A well-formed cache state: the access order lists each cached key once.
pub open spec fn consistent<E>(entries: Map<u64, E>, order: Seq<u64>) -> bool {
    &&& order.no_duplicates()
    &&& forall|k: u64| entries.contains_key(k) <==> order.contains(k)
}

proof fn lemma_without(s: Seq<u64>, k: u64)
    ensures
        forall|x: u64| without(s, k).contains(x) <==> (s.contains(x) && x != k),
        s.no_duplicates() ==> without(s, k).no_duplicates(),
        without(s, k).len() <= s.len(),
        !s.contains(k) ==> without(s, k) == s,
    decreases s.len(),
{
    if s.len() > 0 {
        let t = s.drop_last();
        lemma_without(t, k);
        assert(s =~= t.push(s.last()));
        assert forall|x: u64| s.contains(x) <==> (t.contains(x) || x == s.last()) by {
            if s.contains(x) {
                let i = choose|i: int| 0 <= i < s.len() && s[i] == x;
                if i < s.len() - 1 {
                    assert(t[i] == x);
                }
            }
            if t.contains(x) {
                let i = choose|i: int| 0 <= i < t.len() && t[i] == x;
                assert(s[i] == x);
            }
            if x == s.last() {
                assert(s[s.len() - 1] == x);
            }
        }
        let w = without(t, k);
        if s.last() != k {
            assert forall|x: u64| w.push(s.last()).contains(x) <==> (w.contains(x) || x == s.last()) by {
                if w.push(s.last()).contains(x) {
                    let i = choose|i: int| 0 <= i < w.len() + 1 && w.push(s.last())[i] == x;
                    if i < w.len() {
                        assert(w[i] == x);
                    }
                }
                if w.contains(x) {
                    let i = choose|i: int| 0 <= i < w.len() && w[i] == x;
                    assert(w.push(s.last())[i] == x);
                }
                if x == s.last() {
                    assert(w.push(s.last())[w.len() as int] == x);
                }
            }
            if s.no_duplicates() {
                assert(t.no_duplicates()) by {
                    assert forall|i: int, j: int| 0 <= i < t.len() && 0 <= j < t.len() && i != j implies t[i]
                        != t[j] by {
                        assert(s[i] == t[i] && s[j] == t[j]);
                    }
                }
                assert(!t.contains(s.last())) by {
                    if t.contains(s.last()) {
                        let i = choose|i: int| 0 <= i < t.len() && t[i] == s.last();
                        assert(s[i] == s[s.len() - 1]);
                    }
                }
                assert(!w.contains(s.last()));
                assert forall|i: int, j: int|
                    0 <= i < w.len() + 1 && 0 <= j < w.len() + 1 && i != j implies w.push(s.last())[i]
                    != w.push(s.last())[j] by {
                    if i < w.len() && j < w.len() {
                    } else if i == w.len() {
                        assert(w.contains(w[j]));
                    } else {
                        assert(w.contains(w[i]));
                    }
                }
            }
            if !s.contains(k) {
                assert(!t.contains(k));
            }
        } else {
            if s.no_duplicates() {
                assert(t.no_duplicates()) by {
                    assert forall|i: int, j: int| 0 <= i < t.len() && 0 <= j < t.len() && i != j implies t[i]
                        != t[j] by {
                        assert(s[i] == t[i] && s[j] == t[j]);
                    }
                }
            }
            assert(s.contains(k));
        }
    }
}

proof fn lemma_evicted(order: Seq<u64>, max_size: nat)
    ensures
        exists|c: int| 0 <= c <= order.len() && evicted(order, max_size) == order.skip(c),
        max_size > 0 ==> evicted(order, max_size).len() < max_size,
        max_size == 0 ==> evicted(order, max_size).len() == 0,
    decreases order.len(),
{
    if order.len() > 0 && order.len() >= max_size {
        let t = order.drop_first();
        lemma_evicted(t, max_size);
        let c = choose|c: int| 0 <= c <= t.len() && evicted(t, max_size) == t.skip(c);
        assert(t.skip(c) =~= order.skip(c + 1));
    } else {
        assert(order.skip(0) =~= order);
    }
}

proof fn lemma_skip_keeps(order: Seq<u64>, c: int)
    requires
        0 <= c <= order.len(),
    ensures
        order.no_duplicates() ==> order.skip(c).no_duplicates(),
        forall|x: u64| order.skip(c).contains(x) ==> order.contains(x),
{
    let s = order.skip(c);
    assert forall|x: u64| s.contains(x) implies order.contains(x) by {
        let i = choose|i: int| 0 <= i < s.len() && s[i] == x;
        assert(order[i + c] == x);
    }
    if order.no_duplicates() {
        assert forall|i: int, j: int| 0 <= i < s.len() && 0 <= j < s.len() && i != j implies s[i] != s[j] by {
            assert(s[i] == order[i + c] && s[j] == order[j + c]);
        }
    }
}

/// Inserting keeps the cache consistent, and the inserted key is then cached
/// with the inserted value and is the most recently used.
pub proof fn lemma_insert_consistent<E>(
    entries: Map<u64, E>,
    order: Seq<u64>,
    max_size: nat,
    key: u64,
    value: E,
)
    requires
        consistent(entries, order),
    ensures
        consistent(
            entries_after_insert(entries, order, max_size, key, value),
            order_after_insert(order, max_size, key),
        ),
        entries_after_insert(entries, order, max_size, key, value).contains_key(key),
        entries_after_insert(entries, order, max_size, key, value)[key] == value,
        order_after_insert(order, max_size, key).last() == key,
{
    let kept = evicted(order, max_size);
    lemma_evicted(order, max_size);
    let c = choose|c: int| 0 <= c <= order.len() && evicted(order, max_size) == order.skip(c);
    lemma_skip_keeps(order, c);
    lemma_without(kept, key);
    let w = without(kept, key);
    let o2 = w.push(key);
    let e2 = entries_after_insert(entries, order, max_size, key, value);
    assert forall|x: u64| o2.contains(x) <==> (w.contains(x) || x == key) by {
        if o2.contains(x) {
            let i = choose|i: int| 0 <= i < o2.len() && o2[i] == x;
            if i < w.len() {
                assert(w[i] == x);
            }
        }
        if w.contains(x) {
            let i = choose|i: int| 0 <= i < w.len() && w[i] == x;
            assert(o2[i] == x);
        }
        if x == key {
            assert(o2[w.len() as int] == x);
        }
    }
    assert forall|x: u64| e2.contains_key(x) <==> o2.contains(x) by {
        if kept.contains(x) {
            assert(order.skip(c).contains(x));
            assert(order.contains(x));
            assert(entries.contains_key(x));
            assert(kept.to_set().contains(x));
        }
        if x != key && e2.contains_key(x) {
            assert(kept.to_set().contains(x));
            assert(kept.contains(x));
        }
    }
    assert forall|i: int, j: int| 0 <= i < o2.len() && 0 <= j < o2.len() && i != j implies o2[i]
        != o2[j] by {
        if i < w.len() && j < w.len() {
        } else if i == w.len() {
            assert(w.contains(w[j]));
        } else {
            assert(w.contains(w[i]));
        }
    }
}

/// After an insert the cache holds at most `max(max_size, 1)` keys.
pub proof fn lemma_insert_respects_capacity(order: Seq<u64>, max_size: nat, key: u64)
    ensures
        order_after_insert(order, max_size, key).len() <= if max_size == 0 {
            1
        } else {
            max_size
        },
{
    lemma_evicted(order, max_size);
    lemma_without(evicted(order, max_size), key);
}

/// Eviction only ever removes the least recently used keys: what remains of
/// the access order is one of its suffixes, and when the cache is not full
/// nothing is evicted.
pub proof fn lemma_eviction_is_lru(order: Seq<u64>, max_size: nat)
    ensures
        exists|c: int| 0 <= c <= order.len() && evicted(order, max_size) == order.skip(c),
        order.len() < max_size ==> evicted(order, max_size) == order,
{
    lemma_evicted(order, max_size);
}

/// A read that finds `key` keeps the cache consistent and makes `key` the
/// most recently used.
pub proof fn lemma_hit_consistent<E>(entries: Map<u64, E>, order: Seq<u64>, key: u64)
    requires
        consistent(entries, order),
        entries.contains_key(key),
    ensures
        consistent(entries, order_after_hit(order, key)),
        order_after_hit(order, key).last() == key,
{
    lemma_without(order, key);
    let w = without(order, key);
    let o2 = w.push(key);
    assert(order.contains(key));
    assert forall|x: u64| o2.contains(x) <==> (w.contains(x) || x == key) by {
        if o2.contains(x) {
            let i = choose|i: int| 0 <= i < o2.len() && o2[i] == x;
            if i < w.len() {
                assert(w[i] == x);
            }
        }
        if w.contains(x) {
            let i = choose|i: int| 0 <= i < w.len() && w[i] == x;
            assert(o2[i] == x);
        }
        if x == key {
            assert(o2[w.len() as int] == x);
        }
    }
    assert forall|x: u64| entries.contains_key(x) <==> o2.contains(x) by {
        if o2.contains(x) && x != key {
            assert(w.contains(x));
            assert(order.contains(x));
        }
        if entries.contains_key(x) {
            assert(order.contains(x));
            if x != key {
                assert(w.contains(x));
            }
            assert(o2.contains(x));
        }
    }
    assert forall|i: int, j: int| 0 <= i < o2.len() && 0 <= j < o2.len() && i != j implies o2[i]
        != o2[j] by {
        if i < w.len() && j < w.len() {
        } else if i == w.len() {
            assert(w.contains(w[j]));
        } else {
            assert(w.contains(w[i]));
        }
    }
}

/// Least-recently-used cache of prompt embeddings of type `E`.
pub struct EmbeddingCache<E> {
    entries: HashMap<u64, E>,
    /// Keys from least (front) to most (back) recently used.
    access_order: VecDeque<u64>,
    max_size: usize,
    hits: u64,
    misses: u64,
}

impl<E: Clone> EmbeddingCache<E> {
    /// The cached embeddings by key.
    pub closed spec fn entries(&self) -> Map<u64, E> {
        self.entries@
    }

    /// The cached keys from least to most recently used.
    pub closed spec fn order(&self) -> Seq<u64> {
        self.access_order@
    }

    /// The capacity the cache was made with.
    pub closed spec fn capacity(&self) -> nat {
        self.max_size as nat
    }

    /// Reads that found their prompt.
    pub closed spec fn hit_count(&self) -> nat {
        self.hits as nat
    }

    /// Reads that did not find their prompt.
    pub closed spec fn miss_count(&self) -> nat {
        self.misses as nat
    }

    /// The cache is consistent.
    pub open spec fn wf(&self) -> bool {
        consistent(self.entries(), self.order())
    }

    /// An empty cache that holds at most `max_size` embeddings.
    pub fn new(max_size: usize) -> (c: Self)
        ensures
            c.wf(),
            c.entries() == Map::<u64, E>::empty(),
            c.order() == Seq::<u64>::empty(),
            c.capacity() == max_size,
            c.hit_count() == 0,
            c.miss_count() == 0,
    {
        EmbeddingCache {
            entries: HashMap::new(),
            access_order: VecDeque::new(),
            max_size,
            hits: 0,
            misses: 0,
        }
    }

    /// The access order without `key`.
    fn order_without(&self, key: u64) -> (r: VecDeque<u64>)
        ensures
            r@ == without(self.access_order@, key),
    {
        let mut r: VecDeque<u64> = VecDeque::new();
        let mut i: usize = 0;
        while i < self.access_order.len()
            invariant
                i <= self.access_order@.len(),
                r@ == without(self.access_order@.take(i as int), key),
            decreases self.access_order@.len() - i,
        {
            let k = self.access_order[i];
            proof {
                assert(self.access_order@.take(i + 1).drop_last() =~= self.access_order@.take(
                    i as int,
                ));
            }
            if k != key {
                r.push_back(k);
            }
            i = i + 1;
        }
        assert(self.access_order@.take(i as int) =~= self.access_order@);
        r
    }

    /// Looks up the embedding cached under `key`. A hit makes `key` the most
    /// recently used and counts a hit; a miss counts a miss.
    pub fn get_key(&mut self, key: u64) -> (r: Option<E>)
        requires
            old(self).wf(),
            old(self).hit_count() < u64::MAX,
            old(self).miss_count() < u64::MAX,
        ensures
            final(self).wf(),
            final(self).entries() == old(self).entries(),
            final(self).capacity() == old(self).capacity(),
            r is Some <==> old(self).entries().contains_key(key),
            r matches Some(v) ==> cloned(old(self).entries()[key], v),
            r is Some ==> final(self).order() == order_after_hit(old(self).order(), key)
                && final(self).hit_count() == old(self).hit_count() + 1 && final(self).miss_count()
                == old(self).miss_count(),
            r is None ==> final(self).order() == old(self).order() && final(self).hit_count()
                == old(self).hit_count() && final(self).miss_count() == old(self).miss_count() + 1,
    {
        match self.entries.get(&key) {
            Some(entry) => {
                let found = entry.clone();
                let mut order = self.order_without(key);
                order.push_back(key);
                proof {
                    lemma_hit_consistent(self.entries@, self.access_order@, key);
                }
                self.access_order = order;
                self.hits = self.hits + 1;
                Some(found)
            },
            None => {
                self.misses = self.misses + 1;
                None
            },
        }
    }

    /// Caches `value` under `key`. While the cache is full the least recently
    /// used entries are evicted first; `key` then becomes the most recently used.
    pub fn insert_key(&mut self, key: u64, value: E)
        requires
            old(self).wf(),
        ensures
            final(self).wf(),
            final(self).order() == order_after_insert(old(self).order(), old(self).capacity(), key),
            final(self).entries() == entries_after_insert(
                old(self).entries(),
                old(self).order(),
                old(self).capacity(),
                key,
                value,
            ),
            final(self).capacity() == old(self).capacity(),
            final(self).hit_count() == old(self).hit_count(),
            final(self).miss_count() == old(self).miss_count(),
    {
        let ghost order0 = self.access_order@;
        let ghost entries0 = self.entries@;
        proof {
            lemma_entries_len(self.entries@, self.access_order@);
            assert(order0.skip(0) =~= order0);
            assert(entries0.restrict(order0.to_set()) =~= entries0);
        }
        while self.entries.len() >= self.max_size && self.access_order.len() > 0
            invariant
                consistent(self.entries@, self.access_order@),
                evicted(order0, self.max_size as nat) == evicted(
                    self.access_order@,
                    self.max_size as nat,
                ),
                exists|c: int| 0 <= c <= order0.len() && self.access_order@ == order0.skip(c),
                self.entries@ == entries0.restrict(self.access_order@.to_set()),
                self.entries@.len() == self.access_order@.len(),
                self.max_size == old(self).max_size,
                self.hits == old(self).hits,
                self.misses == old(self).misses,
            decreases self.access_order@.len(),
        {
            let ghost before = self.access_order@;
            let ghost c0 = choose|c: int| 0 <= c <= order0.len() && before == order0.skip(c);
            match self.access_order.pop_front() {
                Some(oldest) => {
                    self.entries.remove(&oldest);
                    proof {
                        assert(self.access_order@ =~= before.drop_first());
                        assert(before.drop_first() =~= order0.skip(c0 + 1));
                        lemma_skip_keeps(before, 1);
                        assert(before.skip(1) =~= before.drop_first());
                        assert(!self.access_order@.contains(oldest)) by {
                            if self.access_order@.contains(oldest) {
                                let i = choose|i: int|
                                    0 <= i < self.access_order@.len() && self.access_order@[i]
                                        == oldest;
                                assert(before[i + 1] == before[0]);
                            }
                        }
                        assert forall|k: u64| self.entries@.contains_key(k) <==> self.access_order@.contains(
                            k,
                        ) by {
                            if before.contains(k) && k != oldest {
                                let i = choose|i: int| 0 <= i < before.len() && before[i] == k;
                                assert(i != 0);
                                assert(self.access_order@[i - 1] == k);
                            }
                            if self.access_order@.contains(k) {
                                let i = choose|i: int|
                                    0 <= i < self.access_order@.len() && self.access_order@[i] == k;
                                assert(before[i + 1] == k);
                            }
                        }
                        assert(self.entries@ =~= entries0.restrict(self.access_order@.to_set()));
                        lemma_entries_len(self.entries@, self.access_order@);
                    }
                },
                None => {},
            }
        }
        proof {
            assert(evicted(self.access_order@, self.max_size as nat) == self.access_order@);
        }
        let mut order = self.order_without(key);
        order.push_back(key);
        self.entries.insert(key, value);
        self.access_order = order;
        proof {
            lemma_insert_consistent(entries0, order0, self.max_size as nat, key, value);
            assert(self.entries@ =~= entries_after_insert(
                entries0,
                order0,
                self.max_size as nat,
                key,
                value,
            ));
        }
    }

    /// Removes every cached embedding; the hit and miss counts stay.
    pub fn clear(&mut self)
        ensures
            final(self).wf(),
            final(self).entries() == Map::<u64, E>::empty(),
            final(self).order() == Seq::<u64>::empty(),
            final(self).capacity() == old(self).capacity(),
            final(self).hit_count() == old(self).hit_count(),
            final(self).miss_count() == old(self).miss_count(),
    {
        self.entries.clear();
        self.access_order.clear();
    }

    /// The hit and miss counts.
    pub fn stats(&self) -> (r: (u64, u64))
        ensures
            r.0 == self.hit_count(),
            r.1 == self.miss_count(),
    {
        (self.hits, self.misses)
    }

    /// The number of cached embeddings.
    pub fn len(&self) -> (n: usize)
        ensures
            n == self.entries().len(),
    {
        self.entries.len()
    }

    /// Whether nothing is cached.
    pub fn is_empty(&self) -> (b: bool)
        ensures
            b == (self.entries().len() == 0),
    {
        self.entries.len() == 0
    }

    /// Looks up the embedding cached for `prompt` (see `get_key`).
    pub fn get(&mut self, prompt: &str) -> (r: Option<E>)
        requires
            old(self).wf(),
            old(self).hit_count() < u64::MAX,
            old(self).miss_count() < u64::MAX,
        ensures
            final(self).wf(),
            final(self).entries() == old(self).entries(),
            final(self).capacity() == old(self).capacity(),
            r is Some <==> old(self).entries().contains_key(prompt_key(prompt@)),
            r matches Some(v) ==> cloned(old(self).entries()[prompt_key(prompt@)], v),
            r is Some ==> final(self).order() == order_after_hit(
                old(self).order(),
                prompt_key(prompt@),
            ) && final(self).hit_count() == old(self).hit_count() + 1 && final(self).miss_count()
                == old(self).miss_count(),
            r is None ==> final(self).order() == old(self).order() && final(self).hit_count()
                == old(self).hit_count() && final(self).miss_count() == old(self).miss_count() + 1,
    {
        let key = hash_prompt(prompt);
        self.get_key(key)
    }

    /// Caches `value` for `prompt` (see `insert_key`).
    pub fn insert(&mut self, prompt: &str, value: E)
        requires
            old(self).wf(),
        ensures
            final(self).wf(),
            final(self).order() == order_after_insert(
                old(self).order(),
                old(self).capacity(),
                prompt_key(prompt@),
            ),
            final(self).entries() == entries_after_insert(
                old(self).entries(),
                old(self).order(),
                old(self).capacity(),
                prompt_key(prompt@),
                value,
            ),
            final(self).capacity() == old(self).capacity(),
            final(self).hit_count() == old(self).hit_count(),
            final(self).miss_count() == old(self).miss_count(),
    {
        let key = hash_prompt(prompt);
        self.insert_key(key, value)
    }
}

proof fn lemma_entries_len<E>(entries: Map<u64, E>, order: Seq<u64>)
    requires
        consistent(entries, order),
    ensures
        entries.len() == order.len(),
        entries.dom() == order.to_set(),
{
    assert(entries.dom() =~= order.to_set());
    order.unique_seq_to_set();
}

} // verus!

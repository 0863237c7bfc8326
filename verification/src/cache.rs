//! A fixed-capacity store of rendered (content, tag) pairs with
//! least-recently-used eviction.
//!
//! Entries are kept from least- to most-recently used; an `insert` for a
//! present key replaces the pair and moves the key to the most-recent end, an
//! `insert` for a fresh key evicts the least-recently-used entry once the
//! cache is full, and a read promotes nothing: recency moves on writes only.
//! A capacity of zero disables caching altogether: `insert` is a no-op.

use vstd::prelude::*;

use crate::etag::EntityTag;

verus! {

/// One cached rendering: the caller-chosen key, the rendered content, and
/// the entity tag computed for exactly that content.
#[derive(Debug)]
pub struct CacheEntry {
    /// The caller-chosen key.
    pub key: String,
    /// The rendered content.
    pub content: String,
    /// The validator for the content.
    pub tag: EntityTag,
}

/// The mathematical form of one cached entry.
pub struct EntryModel {
    /// The caller-chosen key.
    pub key: Seq<char>,
    /// The rendered content.
    pub content: Seq<char>,
    /// Whether the entry's tag is weak.
    pub tag_weak: bool,
    /// The value of the entry's tag.
    pub tag_value: Seq<char>,
}

/// The mathematical form of an entry.
pub open spec fn entry_model(e: CacheEntry) -> EntryModel {
    EntryModel { key: e.key@, content: e.content@, tag_weak: e.tag.weak, tag_value: e.tag.tag@ }
}

/// No two entries share a key.
pub open spec fn distinct_keys(s: Seq<EntryModel>) -> bool {
    forall|i: int, j: int| 0 <= i < j < s.len() ==> s[i].key != s[j].key
}

/// Whether some entry carries the key.
pub open spec fn contains_key_model(s: Seq<EntryModel>, k: Seq<char>) -> bool {
    exists|i: int| 0 <= i < s.len() && s[i].key == k
}

/// The position of the first entry with the key, or the length when no entry
/// has it.
pub open spec fn index_of_key(s: Seq<EntryModel>, k: Seq<char>) -> int
    decreases s.len(),
{
    if s.len() == 0 {
        0
    } else if s[0].key == k {
        0
    } else {
        1 + index_of_key(s.drop_first(), k)
    }
}

/// The entry under a key, when there is one.
pub open spec fn lookup(s: Seq<EntryModel>, k: Seq<char>) -> Option<EntryModel> {
    if contains_key_model(s, k) {
        Some(s[index_of_key(s, k)])
    } else {
        None
    }
}

/// What an insert does to the recency-ordered entries: nothing when the
/// capacity is zero; for a present key, the old pair leaves its place and the
/// new pair becomes most recent; for a fresh key into a full cache, the
/// least-recently-used entry is evicted; otherwise the new pair is appended.
pub open spec fn insert_model(s: Seq<EntryModel>, cap: nat, e: EntryModel) -> Seq<EntryModel> {
    if cap == 0 {
        s
    } else if contains_key_model(s, e.key) {
        s.remove(index_of_key(s, e.key)).push(e)
    } else if s.len() >= cap {
        s.drop_first().push(e)
    } else {
        s.push(e)
    }
}

/// The position of a key is pinned down by a scan: entries before `m` miss
/// the key, and `m` is the end or a hit.
proof fn lemma_index_of_key_unique(s: Seq<EntryModel>, k: Seq<char>, m: int)
    requires
        0 <= m <= s.len(),
        forall|j: int| 0 <= j < m ==> s[j].key != k,
        m < s.len() ==> s[m].key == k,
    ensures
        index_of_key(s, k) == m,
        contains_key_model(s, k) == (m < s.len()),
    decreases s.len(),
{
    if s.len() == 0 {
    } else if s[0].key == k {
        assert(m == 0);
        assert(contains_key_model(s, k));
    } else {
        assert(m >= 1);
        assert forall|j: int| 0 <= j < m - 1 implies s.drop_first()[j].key != k by {
            assert(s.drop_first()[j] == s[j + 1]);
        }
        lemma_index_of_key_unique(s.drop_first(), k, m - 1);
        if m < s.len() {
            assert(s[m].key == k);
            assert(contains_key_model(s, k));
        } else {
            if contains_key_model(s, k) {
                let i = choose|i: int| 0 <= i < s.len() && s[i].key == k;
                assert(false);
            }
        }
    }
}

/// A fixed-capacity, key-indexed store of rendered output with
/// least-recently-used eviction.
#[derive(Debug)]
pub struct RenderedCache {
    /// The fixed capacity; zero disables caching.
    pub capacity: usize,
    /// The entries, from least- to most-recently used.
    pub entries: Vec<CacheEntry>,
}

impl RenderedCache {
    /// The entries in mathematical form, from least- to most-recently used.
    pub open spec fn model(self) -> Seq<EntryModel> {
        self.entries@.map_values(|e: CacheEntry| entry_model(e))
    }

    /// The cache invariant: keys are unique, the size never exceeds the
    /// capacity, and a capacity of zero keeps the cache empty.
    pub open spec fn wf(self) -> bool {
        &&& distinct_keys(self.model())
        &&& self.model().len() <= self.capacity
        &&& self.capacity == 0 ==> self.model().len() == 0
    }

    /// Creates an empty cache with the given fixed capacity.
    pub fn with_capacity(capacity: usize) -> (r: RenderedCache)
        ensures
            r.wf(),
            r.capacity == capacity,
            r.model() == Seq::<EntryModel>::empty(),
    {
        let r = RenderedCache { capacity, entries: Vec::new() };
        proof {
            assert(r.model() =~= Seq::<EntryModel>::empty());
        }
        r
    }

    /// The position of the key among the entries, or the number of entries
    /// when the key is absent.
    fn find_index(&self, key: &String) -> (r: usize)
        ensures
            r as int == index_of_key(self.model(), key@),
            contains_key_model(self.model(), key@) == (r < self.entries@.len()),
            r <= self.entries@.len(),
    {
        let n = self.entries.len();
        let mut i: usize = 0;
        while i < n
            invariant
                n == self.entries@.len(),
                i <= n,
                forall|j: int| 0 <= j < i ==> self.model()[j].key != key@,
            decreases n - i,
        {
            if self.entries[i].key == *key {
                proof {
                    assert(self.model()[i as int].key == key@);
                    lemma_index_of_key_unique(self.model(), key@, i as int);
                }
                return i;
            }
            proof {
                assert(self.model()[i as int].key == self.entries@[i as int].key@);
            }
            i += 1;
        }
        proof {
            lemma_index_of_key_unique(self.model(), key@, n as int);
        }
        n
    }

    /// Returns a copy of the (content, tag) pair under the key, or nothing on
    /// a miss. A read does not promote recency.
    pub fn get(&self, key: &String) -> (r: Option<(String, EntityTag)>)
        ensures
            match r {
                Some(p) => {
                    &&& contains_key_model(self.model(), key@)
                    &&& lookup(self.model(), key@) matches Some(e) && p.0@ == e.content
                        && p.1.weak == e.tag_weak && p.1.tag@ == e.tag_value
                },
                None => !contains_key_model(self.model(), key@),
            },
    {
        let idx = self.find_index(key);
        if idx < self.entries.len() {
            let e = &self.entries[idx];
            proof {
                assert(self.model()[idx as int] == entry_model(self.entries@[idx as int]));
            }
            Some((e.content.clone(), e.tag.clone()))
        } else {
            None
        }
    }

    /// Whether the key is present.
    pub fn contains_key(&self, key: &String) -> (r: bool)
        ensures
            r == contains_key_model(self.model(), key@),
    {
        let idx = self.find_index(key);
        idx < self.entries.len()
    }

    /// Stores a (content, tag) pair under the key and returns the pair the
    /// key held before, if any. With capacity zero this is a no-op that
    /// returns nothing. Otherwise a present key is replaced and moved to the
    /// most-recent end; a fresh key is appended, evicting the
    /// least-recently-used entry when the cache is full.
    pub fn insert(&mut self, key: String, content: String, tag: EntityTag) -> (r: Option<
        (String, EntityTag),
    >)
        requires
            old(self).wf(),
        ensures
            final(self).wf(),
            final(self).capacity == old(self).capacity,
            final(self).model() == insert_model(
                old(self).model(),
                old(self).capacity as nat,
                (EntryModel { key: key@, content: content@, tag_weak: tag.weak, tag_value: tag.tag@ }),
            ),
            match r {
                Some(p) => {
                    &&& old(self).capacity > 0
                    &&& contains_key_model(old(self).model(), key@)
                    &&& lookup(old(self).model(), key@) matches Some(e) && p.0@ == e.content
                        && p.1.weak == e.tag_weak && p.1.tag@ == e.tag_value
                },
                None => old(self).capacity == 0 || !contains_key_model(old(self).model(), key@),
            },
    {
        let ghost m0 = self.model();
        let ghost em = EntryModel {
            key: key@,
            content: content@,
            tag_weak: tag.weak,
            tag_value: tag.tag@,
        };
        if self.capacity == 0 {
            return None;
        }
        let idx = self.find_index(&key);
        if idx < self.entries.len() {
            let old_entry = self.entries.remove(idx);
            self.entries.push(CacheEntry { key, content, tag });
            proof {
                assert(self.model() =~= m0.remove(idx as int).push(em)) by {
                    assert forall|i: int| 0 <= i < self.model().len() implies self.model()[i]
                        == m0.remove(idx as int).push(em)[i] by {
                        if i < self.model().len() - 1 {
                            if i < idx {
                                assert(self.entries@[i] == old(self).entries@[i]);
                            } else {
                                assert(self.entries@[i] == old(self).entries@[i + 1]);
                            }
                        }
                    }
                }
                lemma_index_of_key_props(m0, key@);
                lemma_replace_preserves_wf(m0, self.capacity as nat, em, idx as int);
                assert(m0[idx as int] == entry_model(old(self).entries@[idx as int]));
            }
            Some((old_entry.content, old_entry.tag))
        } else if self.entries.len() >= self.capacity {
            self.entries.remove(0);
            self.entries.push(CacheEntry { key, content, tag });
            proof {
                assert(self.model() =~= m0.drop_first().push(em)) by {
                    assert forall|i: int| 0 <= i < self.model().len() implies self.model()[i]
                        == m0.drop_first().push(em)[i] by {
                        if i < self.model().len() - 1 {
                            assert(self.entries@[i] == old(self).entries@[i + 1]);
                        }
                    }
                }
                lemma_evict_preserves_wf(m0, self.capacity as nat, em);
            }
            None
        } else {
            self.entries.push(CacheEntry { key, content, tag });
            proof {
                assert(self.model() =~= m0.push(em));
                lemma_append_preserves_wf(m0, self.capacity as nat, em);
            }
            None
        }
    }

    /// Drops every entry; the capacity stays as it was.
    pub fn clear(&mut self)
        ensures
            final(self).wf(),
            final(self).capacity == old(self).capacity,
            final(self).model() == Seq::<EntryModel>::empty(),
    {
        self.entries.clear();
        proof {
            assert(self.model() =~= Seq::<EntryModel>::empty());
        }
    }

    /// How many entries the cache holds.
    pub fn size(&self) -> (r: usize)
        ensures
            r == self.model().len(),
    {
        self.entries.len()
    }

    /// The fixed capacity the cache was created with.
    pub fn capacity(&self) -> (r: usize)
        ensures
            r == self.capacity,
    {
        self.capacity
    }
}

/// Replacing a present key keeps the keys distinct and the size unchanged.
proof fn lemma_replace_preserves_wf(s: Seq<EntryModel>, cap: nat, e: EntryModel, idx: int)
    requires
        distinct_keys(s),
        s.len() <= cap,
        0 <= idx < s.len(),
        s[idx].key == e.key,
        idx == index_of_key(s, e.key),
    ensures
        contains_key_model(s, e.key),
        insert_model(s, cap, e) == s.remove(idx).push(e),
        distinct_keys(s.remove(idx).push(e)),
        s.remove(idx).push(e).len() == s.len(),
{
    assert(contains_key_model(s, e.key));
    let s2 = s.remove(idx).push(e);
    assert forall|i: int, j: int| 0 <= i < j < s2.len() implies s2[i].key != s2[j].key by {
        if j < s2.len() - 1 {
            // Both are surviving old entries, distinct already.
            let oi = if i < idx {
                i
            } else {
                i + 1
            };
            let oj = if j < idx {
                j
            } else {
                j + 1
            };
            assert(s2[i] == s[oi] && s2[j] == s[oj]);
        } else {
            // The new entry's key occurs nowhere among the survivors: the key
            // occurred only at idx, which was removed.
            let oi = if i < idx {
                i
            } else {
                i + 1
            };
            assert(s2[i] == s[oi]);
            assert(oi != idx);
        }
    }
}

/// Evicting the least-recently-used entry for a fresh key keeps the keys
/// distinct and the size at the capacity.
proof fn lemma_evict_preserves_wf(s: Seq<EntryModel>, cap: nat, e: EntryModel)
    requires
        distinct_keys(s),
        s.len() == cap,
        cap >= 1,
        !contains_key_model(s, e.key),
    ensures
        insert_model(s, cap, e) == s.drop_first().push(e),
        distinct_keys(s.drop_first().push(e)),
        s.drop_first().push(e).len() == cap,
{
    let s2 = s.drop_first().push(e);
    assert forall|i: int, j: int| 0 <= i < j < s2.len() implies s2[i].key != s2[j].key by {
        if j < s2.len() - 1 {
            assert(s2[i] == s[i + 1] && s2[j] == s[j + 1]);
        } else {
            assert(s2[i] == s[i + 1]);
            assert(s[i + 1].key != e.key);
        }
    }
}

/// Appending a fresh key below capacity keeps the keys distinct.
proof fn lemma_append_preserves_wf(s: Seq<EntryModel>, cap: nat, e: EntryModel)
    requires
        distinct_keys(s),
        s.len() < cap,
        !contains_key_model(s, e.key),
    ensures
        insert_model(s, cap, e) == s.push(e),
        distinct_keys(s.push(e)),
        s.push(e).len() == s.len() + 1 <= cap,
{
    let s2 = s.push(e);
    assert forall|i: int, j: int| 0 <= i < j < s2.len() implies s2[i].key != s2[j].key by {
        if j < s2.len() - 1 {
            assert(s2[i] == s[i] && s2[j] == s[j]);
        } else {
            assert(s2[i] == s[i]);
            assert(s[i].key != e.key);
        }
    }
}

/// The entry just inserted is the one a lookup of its key then finds: the
/// whole pair together, never a mix of two inserts.
pub proof fn lemma_insert_found(s: Seq<EntryModel>, cap: nat, e: EntryModel)
    requires
        distinct_keys(s),
        s.len() <= cap,
        cap >= 1,
    ensures
        lookup(insert_model(s, cap, e), e.key) == Some(e),
    decreases s.len(),
{
    let s2 = insert_model(s, cap, e);
    if contains_key_model(s, e.key) {
        let idx = index_of_key(s, e.key);
        lemma_index_of_key_props(s, e.key);
        lemma_replace_preserves_wf(s, cap, e, idx);
        assert forall|j: int| 0 <= j < s2.len() - 1 implies s2[j].key != e.key by {
            let oj = if j < idx {
                j
            } else {
                j + 1
            };
            assert(s2[j] == s.remove(idx)[j] && s.remove(idx)[j] == s[oj]);
            assert(oj != idx);
        }
        assert(s2[s2.len() - 1] == e);
        lemma_index_of_key_unique(s2, e.key, s2.len() - 1);
    } else if s.len() >= cap {
        assert forall|j: int| 0 <= j < s2.len() - 1 implies s2[j].key != e.key by {
            assert(s2[j] == s[j + 1]);
        }
        assert(s2[s2.len() - 1] == e);
        lemma_index_of_key_unique(s2, e.key, s2.len() - 1);
    } else {
        assert forall|j: int| 0 <= j < s2.len() - 1 implies s2[j].key != e.key by {
            assert(s2[j] == s[j]);
        }
        assert(s2[s2.len() - 1] == e);
        lemma_index_of_key_unique(s2, e.key, s2.len() - 1);
    }
}

/// The position a lookup uses is a real hit: within range, carrying the key.
proof fn lemma_index_of_key_props(s: Seq<EntryModel>, k: Seq<char>)
    ensures
        contains_key_model(s, k) ==> 0 <= index_of_key(s, k) < s.len() && s[index_of_key(s, k)].key
            == k,
        forall|j: int| 0 <= j < index_of_key(s, k) && j < s.len() ==> s[j].key != k,
    decreases s.len(),
{
    if s.len() > 0 && s[0].key != k {
        lemma_index_of_key_props(s.drop_first(), k);
        if contains_key_model(s, k) {
            let i = choose|i: int| 0 <= i < s.len() && s[i].key == k;
            assert(i >= 1);
            assert(s.drop_first()[i - 1].key == k);
            assert(contains_key_model(s.drop_first(), k));
        }
        assert forall|j: int| 0 <= j < index_of_key(s, k) && j < s.len() implies s[j].key != k by {
            if j >= 1 {
                assert(s[j] == s.drop_first()[j - 1]);
            }
        }
    }
}

/// Least-recently-used eviction, exactly: a fresh key inserted into a full
/// cache evicts the least-recently-used entry and nothing else; every other
/// entry survives one step closer to the least-recent end, the new entry is
/// the most recent, and the size stays at the capacity.
pub proof fn lemma_lru_eviction(s: Seq<EntryModel>, cap: nat, e: EntryModel)
    requires
        distinct_keys(s),
        s.len() == cap,
        cap >= 1,
        !contains_key_model(s, e.key),
    ensures
        insert_model(s, cap, e).len() == cap,
        !contains_key_model(insert_model(s, cap, e), s[0].key),
        forall|i: int| 1 <= i < s.len() ==> insert_model(s, cap, e)[i - 1] == s[i],
        insert_model(s, cap, e)[cap - 1] == e,
{
    let s2 = insert_model(s, cap, e);
    lemma_evict_preserves_wf(s, cap, e);
    assert forall|i: int| 0 <= i < s2.len() implies s2[i].key != s[0].key by {
        if i < s2.len() - 1 {
            assert(s2[i] == s[i + 1]);
        } else {
            assert(s2[i] == e);
            assert(s[0].key != e.key);
        }
    }
    if contains_key_model(s2, s[0].key) {
        let i = choose|i: int| 0 <= i < s2.len() && s2[i].key == s[0].key;
        assert(false);
    }
}

/// A capacity of zero disables caching: whatever was inserted before, a
/// well-formed cache with capacity zero holds nothing, no key is ever
/// present in it, and a further insert changes nothing.
pub proof fn lemma_capacity_zero_disables(c: RenderedCache, e: EntryModel, k: Seq<char>)
    requires
        c.wf(),
        c.capacity == 0,
    ensures
        c.model().len() == 0,
        !contains_key_model(c.model(), k),
        insert_model(c.model(), c.capacity as nat, e) == c.model(),
{
}

/// Two inserts under one key, in either interleaving the last one wins
/// whole: a later lookup sees the later pair, content and tag together,
/// never a mix of the two.
pub proof fn lemma_last_insert_wins(s: Seq<EntryModel>, cap: nat, e1: EntryModel, e2: EntryModel)
    requires
        distinct_keys(s),
        s.len() <= cap,
        cap >= 1,
        e1.key == e2.key,
    ensures
        lookup(insert_model(insert_model(s, cap, e1), cap, e2), e2.key) == Some(e2),
{
    let s1 = insert_model(s, cap, e1);
    if contains_key_model(s, e1.key) {
        let idx = index_of_key(s, e1.key);
        lemma_index_of_key_props(s, e1.key);
        lemma_replace_preserves_wf(s, cap, e1, idx);
    } else if s.len() >= cap {
        lemma_evict_preserves_wf(s, cap, e1);
    } else {
        lemma_append_preserves_wf(s, cap, e1);
    }
    lemma_insert_found(s1, cap, e2);
}

} // verus!

//! The response cache: a bounded store of small bodies by request path.
//! Entries leave in the order in which they came; reading an entry does not
//! keep it longer.

use vstd::prelude::*;
use crate::text::str_eq;

verus! {

/// A cached body with its content type, under the path it was served at.
#[derive(Debug)]
pub struct CacheEntry {
    pub key: String,
    pub data: Vec<u8>,
    pub mime: String,
}

/// What a cache entry is in contracts.
pub struct EntryView {
    pub key: Seq<char>,
    pub data: Seq<u8>,
    pub mime: Seq<char>,
}

impl View for CacheEntry {
    type V = EntryView;

    open spec fn view(&self) -> EntryView {
        EntryView { key: self.key@, data: self.data@, mime: self.mime@ }
    }
}

/// What a cache is in contracts: its bound, and its entries with the oldest
/// first.
pub struct CacheView {
    pub limit: nat,
    pub entries: Seq<EntryView>,
}

/// The views of a sequence of entries.
pub open spec fn entry_views(s: Seq<CacheEntry>) -> Seq<EntryView> {
    Seq::new(s.len(), |i: int| s[i]@)
}

/// The number of bytes that the bodies of the entries take up together.
pub open spec fn total_size(entries: Seq<EntryView>) -> nat
    decreases entries.len(),
{
    if entries.len() == 0 {
        0
    } else {
        total_size(entries.drop_last()) + entries.last().data.len()
    }
}

/// The position of the entry with the given key, or the number of entries if
/// there is none.
pub open spec fn key_index(entries: Seq<EntryView>, key: Seq<char>) -> int
    decreases entries.len(),
{
    if entries.len() == 0 {
        0
    } else if entries[0].key == key {
        0
    } else {
        1 + key_index(entries.drop_first(), key)
    }
}

/// The entry with the given key, if there is one.
pub open spec fn lookup(entries: Seq<EntryView>, key: Seq<char>) -> Option<EntryView> {
    if 0 <= key_index(entries, key) < entries.len() {
        Some(entries[key_index(entries, key)])
    } else {
        None
    }
}

/// The entries without the one that has the given key.
pub open spec fn without_key(entries: Seq<EntryView>, key: Seq<char>) -> Seq<EntryView> {
    if 0 <= key_index(entries, key) < entries.len() {
        entries.remove(key_index(entries, key))
    } else {
        entries
    }
}

/// The entries that stay when the oldest leave, one by one, until `need`
/// more bytes fit under `limit`.
pub open spec fn evicted(entries: Seq<EntryView>, need: nat, limit: nat) -> Seq<EntryView>
    decreases entries.len(),
{
    if entries.len() > 0 && total_size(entries) + need > limit {
        evicted(entries.drop_first(), need, limit)
    } else {
        entries
    }
}

/// Whether no two entries have the same key.
pub open spec fn distinct_keys(entries: Seq<EntryView>) -> bool {
    forall|i: int, j: int|
        0 <= i < j < entries.len() ==> (#[trigger] entries[i]).key != (#[trigger] entries[j]).key
}

/// The cache after a body is offered to it under `key`. A cache with a bound
/// of 0 is turned off and takes nothing. A body longer than the bound is
/// refused. In both cases the cache stays as it is. Otherwise an entry
/// under the same key leaves, the oldest entries leave until the body fits,
/// and the new entry goes to the end.
pub open spec fn after_set(c: CacheView, key: Seq<char>, data: Seq<u8>, mime: Seq<char>) -> CacheView {
    if c.limit == 0 || data.len() > c.limit {
        c
    } else {
        CacheView {
            limit: c.limit,
            entries: evicted(without_key(c.entries, key), data.len(), c.limit).push(
                EntryView { key, data, mime },
            ),
        }
    }
}

impl CacheView {
    /// What holds of every cache: the bodies fit under the bound together,
    /// and no two entries have the same key.
    pub open spec fn ok(self) -> bool {
        total_size(self.entries) <= self.limit && distinct_keys(self.entries)
    }
}

/// The key index lies within bounds, points at an entry with the key when it
/// is below the length, and no earlier entry has the key.
pub proof fn lemma_key_index(entries: Seq<EntryView>, key: Seq<char>)
    ensures
        0 <= key_index(entries, key) <= entries.len(),
        key_index(entries, key) < entries.len() ==> entries[key_index(entries, key)].key == key,
        forall|j: int| 0 <= j < key_index(entries, key) ==> (#[trigger] entries[j]).key != key,
    decreases entries.len(),
{
    if entries.len() > 0 && entries[0].key != key {
        let rest = entries.drop_first();
        lemma_key_index(rest, key);
        assert forall|j: int| 0 <= j < key_index(entries, key) implies (#[trigger] entries[j]).key
            != key by {
            if j > 0 {
                assert(entries[j] == rest[j - 1]);
            }
        }
    }
}

/// A position that holds the key with none before it is the key index.
pub proof fn lemma_key_index_is(entries: Seq<EntryView>, key: Seq<char>, i: int)
    requires
        0 <= i <= entries.len(),
        i < entries.len() ==> entries[i].key == key,
        forall|j: int| 0 <= j < i ==> (#[trigger] entries[j]).key != key,
    ensures
        key_index(entries, key) == i,
    decreases entries.len(),
{
    if entries.len() > 0 && i > 0 {
        let rest = entries.drop_first();
        assert(entries[0].key != key);
        assert forall|j: int| 0 <= j < i - 1 implies (#[trigger] rest[j]).key != key by {
            assert(rest[j] == entries[j + 1]);
        }
        lemma_key_index_is(rest, key, i - 1);
    }
}

/// Taking an entry out lowers the total by the length of its body.
pub proof fn lemma_total_remove(entries: Seq<EntryView>, i: int)
    requires
        0 <= i < entries.len(),
    ensures
        total_size(entries.remove(i)) + entries[i].data.len() == total_size(entries),
    decreases entries.len(),
{
    if i == entries.len() - 1 {
        assert(entries.remove(i) =~= entries.drop_last());
    } else {
        lemma_total_remove(entries.drop_last(), i);
        assert(entries.remove(i).drop_last() =~= entries.drop_last().remove(i));
        assert(entries.remove(i).last() == entries.last());
    }
}

/// No body is longer than the total, so none is longer than the bound of a
/// cache that is in order.
pub proof fn lemma_entry_fits(entries: Seq<EntryView>, i: int)
    requires
        0 <= i < entries.len(),
    ensures
        entries[i].data.len() <= total_size(entries),
{
    lemma_total_remove(entries, i);
}

/// What stays after eviction fits with the new body, is made of entries that
/// were there, keeps their keys distinct, and has none under a key that no
/// entry had.
pub proof fn lemma_evicted(entries: Seq<EntryView>, need: nat, limit: nat)
    requires
        need <= limit,
        distinct_keys(entries),
    ensures
        total_size(evicted(entries, need, limit)) + need <= limit,
        distinct_keys(evicted(entries, need, limit)),
        forall|key: Seq<char>|
            key_index(entries, key) == entries.len() ==> #[trigger] key_index(
                evicted(entries, need, limit),
                key,
            ) == evicted(entries, need, limit).len(),
    decreases entries.len(),
{
    if entries.len() > 0 && total_size(entries) + need > limit {
        let rest = entries.drop_first();
        assert forall|i: int, j: int| 0 <= i < j < rest.len() implies (#[trigger] rest[i]).key != (
        #[trigger] rest[j]).key by {
            assert(rest[i] == entries[i + 1] && rest[j] == entries[j + 1]);
        }
        lemma_evicted(rest, need, limit);
        assert forall|key: Seq<char>| key_index(entries, key) == entries.len() implies #[trigger] key_index(
            evicted(entries, need, limit),
            key,
        ) == evicted(entries, need, limit).len() by {
            lemma_key_index(entries, key);
        }
    }
}

/// The law of the bound: after any offer, a cache that was in order is in
/// order, so the bodies it holds fit under its bound together and each of
/// them alone.
pub proof fn lemma_set_keeps_order(c: CacheView, key: Seq<char>, data: Seq<u8>, mime: Seq<char>)
    requires
        c.ok(),
    ensures
        after_set(c, key, data, mime).ok(),
        total_size(after_set(c, key, data, mime).entries) <= c.limit,
        forall|i: int|
            0 <= i < after_set(c, key, data, mime).entries.len() ==> (#[trigger] after_set(
                c,
                key,
                data,
                mime,
            ).entries[i]).data.len() <= c.limit,
{
    let after = after_set(c, key, data, mime);
    if c.limit > 0 && data.len() <= c.limit {
        let removed = without_key(c.entries, key);
        lemma_without_key(c.entries, key);
        lemma_evicted(removed, data.len(), c.limit);
        let kept = evicted(removed, data.len(), c.limit);
        let entry = EntryView { key, data, mime };
        assert(kept.push(entry).drop_last() =~= kept);
        assert forall|i: int, j: int| 0 <= i < j < after.entries.len() implies (
        #[trigger] after.entries[i]).key != (#[trigger] after.entries[j]).key by {
            if j == kept.len() {
                lemma_key_index(kept, key);
                assert(after.entries[i] == kept[i]);
            } else {
                assert(after.entries[i] == kept[i] && after.entries[j] == kept[j]);
            }
        }
    }
    assert forall|i: int| 0 <= i < after.entries.len() implies (#[trigger] after.entries[i]).data.len()
        <= c.limit by {
        lemma_entry_fits(after.entries, i);
    }
}

/// Without the entry under a key, the total is no larger, the keys stay
/// distinct, and no entry has the key.
pub proof fn lemma_without_key(entries: Seq<EntryView>, key: Seq<char>)
    requires
        distinct_keys(entries),
    ensures
        total_size(without_key(entries, key)) <= total_size(entries),
        distinct_keys(without_key(entries, key)),
        key_index(without_key(entries, key), key) == without_key(entries, key).len(),
{
    lemma_key_index(entries, key);
    let i = key_index(entries, key);
    let rest = without_key(entries, key);
    if i < entries.len() {
        lemma_total_remove(entries, i);
        assert forall|a: int, b: int| 0 <= a < b < rest.len() implies (#[trigger] rest[a]).key != (
        #[trigger] rest[b]).key by {
            let a0 = if a < i { a } else { a + 1 };
            let b0 = if b < i { b } else { b + 1 };
            assert(rest[a] == entries[a0] && rest[b] == entries[b0]);
        }
        assert forall|j: int| 0 <= j < rest.len() implies (#[trigger] rest[j]).key != key by {
            let j0 = if j < i { j } else { j + 1 };
            assert(rest[j] == entries[j0]);
            if j0 < i {
            } else {
                assert(entries[i].key != entries[j0].key);
            }
        }
    }
    lemma_key_index_is(rest, key, rest.len() as int);
}

/// The law of the second read: what was offered and not refused is found
/// under its key afterwards.
pub proof fn lemma_set_then_lookup(c: CacheView, key: Seq<char>, data: Seq<u8>, mime: Seq<char>)
    requires
        c.ok(),
        c.limit > 0,
        data.len() <= c.limit,
    ensures
        lookup(after_set(c, key, data, mime).entries, key) == Some(EntryView { key, data, mime }),
{
    let removed = without_key(c.entries, key);
    lemma_without_key(c.entries, key);
    lemma_evicted(removed, data.len(), c.limit);
    let kept = evicted(removed, data.len(), c.limit);
    let entry = EntryView { key, data, mime };
    let after = kept.push(entry);
    lemma_key_index(kept, key);
    assert forall|j: int| 0 <= j < kept.len() implies (#[trigger] after[j]).key != key by {
        assert(after[j] == kept[j]);
    }
    lemma_key_index_is(after, key, kept.len() as int);
}

/// The response cache.
#[derive(Debug)]
pub struct Cache {
    limit: usize,
    size: usize,
    entries: Vec<CacheEntry>,
}

impl View for Cache {
    type V = CacheView;

    closed spec fn view(&self) -> CacheView {
        CacheView { limit: self.limit as nat, entries: entry_views(self.entries@) }
    }
}

impl Cache {
    /// Whether the cache is in order: its view is, and its count of bytes is
    /// the total of its entries.
    pub closed spec fn wf(&self) -> bool {
        self@.ok() && self.size == total_size(self@.entries)
    }

    /// A cache that is in order holds bodies that fit under its bound
    /// together, under keys of which no two are the same.
    pub proof fn lemma_wf_is_ok(&self)
        requires
            self.wf(),
        ensures
            self@.ok(),
    {
    }

    /// An empty cache that holds at most `limit` bytes.
    pub fn new(limit: usize) -> (r: Cache)
        ensures
            r.wf(),
            r@ == (CacheView { limit: limit as nat, entries: Seq::empty() }),
    {
        let r = Cache { limit, size: 0, entries: Vec::new() };
        assert(r@.entries =~= Seq::<EntryView>::empty());
        r
    }

    /// The number of bytes that the cache may hold.
    pub fn limit(&self) -> (r: usize)
        ensures
            r == self@.limit,
    {
        self.limit
    }

    /// The number of bytes that the cache holds.
    pub fn size(&self) -> (r: usize)
        requires
            self.wf(),
        ensures
            r == total_size(self@.entries),
            r <= self@.limit,
    {
        self.size
    }

    /// The number of entries.
    pub fn len(&self) -> (r: usize)
        ensures
            r == self@.entries.len(),
    {
        self.entries.len()
    }

    /// The position of the entry under `key`, or the number of entries.
    fn position(&self, key: &str) -> (r: usize)
        ensures
            r == key_index(self@.entries, key@),
            r <= self@.entries.len(),
    {
        let ghost all = self@.entries;
        let mut i: usize = 0;
        while i < self.entries.len()
            invariant
                i <= self.entries@.len(),
                all == self@.entries,
                all.len() == self.entries@.len(),
                forall|j: int| 0 <= j < i ==> (#[trigger] all[j]).key != key@,
            decreases self.entries@.len() - i,
        {
            if str_eq(self.entries[i].key.as_str(), key) {
                proof {
                    lemma_key_index_is(all, key@, i as int);
                }
                return i;
            }
            i += 1;
        }
        proof {
            lemma_key_index_is(all, key@, i as int);
        }
        i
    }

    /// The entry under `key`, if there is one. The cache stays as it is.
    pub fn get(&self, key: &str) -> (r: Option<&CacheEntry>)
        ensures
            match lookup(self@.entries, key@) {
                Some(entry) => r matches Some(found) && found@ == entry,
                None => r is None,
            },
    {
        let i = self.position(key);
        if i < self.entries.len() {
            Some(&self.entries[i])
        } else {
            None
        }
    }

    /// Offers a body to the cache under `key`. A cache with a bound of 0 is
    /// turned off and takes nothing. A body longer than the bound is refused. Otherwise the entry under the same key leaves, the oldest
    /// entries leave until the body fits, and the new entry goes to the end.
    pub fn set(&mut self, key: &str, data: Vec<u8>, mime: &str)
        requires
            old(self).wf(),
        ensures
            final(self).wf(),
            final(self)@ == after_set(old(self)@, key@, data@, mime@),
    {
        let need = data.len();
        if self.limit == 0 || need > self.limit {
            return ;
        }
        let i = self.position(key);
        proof {
            lemma_without_key(self@.entries, key@);
        }
        if i < self.entries.len() {
            proof {
                lemma_total_remove(self@.entries, i as int);
                assert(entry_views(self.entries@.remove(i as int)) =~= self@.entries.remove(
                    i as int,
                ));
            }
            let gone = self.entries.remove(i);
            self.size = self.size - gone.data.len();
        }
        let ghost removed = self@.entries;
        assert(removed == without_key(old(self)@.entries, key@));
        while self.entries.len() > 0 && need > self.limit - self.size
            invariant
                need <= self.limit,
                self.limit == old(self).limit,
                self.size == total_size(self@.entries),
                self.size <= self.limit,
                evicted(removed, need as nat, self.limit as nat) == evicted(
                    self@.entries,
                    need as nat,
                    self.limit as nat,
                ),
            decreases self.entries@.len(),
        {
            proof {
                lemma_total_remove(self@.entries, 0);
                assert(entry_views(self.entries@.remove(0)) =~= self@.entries.drop_first());
                assert(self@.entries.remove(0) =~= self@.entries.drop_first());
            }
            let gone = self.entries.remove(0);
            self.size = self.size - gone.data.len();
        }
        proof {
            if self.entries@.len() == 0 {
                assert(self@.entries =~= Seq::<EntryView>::empty());
            }
            assert(self@.entries == evicted(removed, need as nat, self.limit as nat));
        }
        let ghost kept = self@.entries;
        let entry = CacheEntry { key: key.to_string(), data, mime: mime.to_string() };
        self.entries.push(entry);
        self.size = self.size + need;
        proof {
            assert(self@.entries =~= kept.push(entry@));
            assert(self@.entries.drop_last() =~= kept);
            lemma_set_keeps_order(old(self)@, key@, data@, mime@);
        }
    }
}

} // verus!

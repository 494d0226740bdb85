//! The bounded recency cache of the engine: an `lru::LruCache` from address to
//! record, its mathematical model and the facts about that model.
//!
//! The model of a cache is the sequence of its entries, the most recently used
//! first. The three calls into the `lru` crate are believed to act on that
//! sequence as their contracts say; everything else here is proved, also that
//! a cache that starts empty never holds an address twice nor more entries
//! than its capacity.

use crate::details::{IpDetails, IpDetailsView, Text};
use lru::LruCache;
use std::num::NonZeroUsize;
use vstd::prelude::*;

verus! {

/// One cached address with its record.
pub type Entry = (Text, IpDetailsView);

/// `lru::LruCache`, of which the verifier sees nothing but `cached_entries`
/// and `capacity`.
#[verifier::external_type_specification]
#[verifier::external_body]
#[verifier::reject_recursive_types(K)]
#[verifier::reject_recursive_types(V)]
#[verifier::reject_recursive_types(S)]
pub struct ExLruCache<K, V, S>(LruCache<K, V, S>);

/// `lru::DefaultHasher`, the hasher of a cache made by `LruCache::new`.
#[verifier::external_type_specification]
#[verifier::external_body]
pub struct ExDefaultHasher(lru::DefaultHasher);

/// The entries of a cache, from the most recently used to the least.
pub uninterp spec fn cached_entries(cache: LruCache<String, IpDetails>) -> Seq<Entry>;

/// The number of entries that a cache was made to hold.
pub uninterp spec fn capacity(cache: LruCache<String, IpDetails>) -> nat;

/// The largest capacity a cache is made with. `LruCache::new` allocates a
/// hash table for as many entries at once, and panics where the size of that
/// table overflows; within this bound it does not.
pub const MAX_CACHE_SIZE: usize = usize::MAX / 256;

/// Is there an entry for `key`?
pub open spec fn holds(entries: Seq<Entry>, key: Text) -> bool {
    exists|i: int| 0 <= i < entries.len() && (#[trigger] entries[i]).0 == key
}

/// The place of the entry for `key`, where there is one.
pub open spec fn index_of(entries: Seq<Entry>, key: Text) -> int {
    choose|i: int| 0 <= i < entries.len() && (#[trigger] entries[i]).0 == key
}

/// The record cached for `key`, where there is one.
pub open spec fn record_of(entries: Seq<Entry>, key: Text) -> IpDetailsView {
    entries[index_of(entries, key)].1
}

/// No address has two entries.
pub open spec fn distinct_keys(entries: Seq<Entry>) -> bool {
    forall|i: int, j: int|
        0 <= i < j < entries.len() ==> (#[trigger] entries[i]).0 != (#[trigger] entries[j]).0
}

/// The entries after a use of `key`: its entry, if there is one, moves to the
/// front, and nothing else changes.
pub open spec fn touch(entries: Seq<Entry>, key: Text) -> Seq<Entry> {
    if holds(entries, key) {
        seq![entries[index_of(entries, key)]] + entries.remove(index_of(entries, key))
    } else {
        entries
    }
}

/// The entries after `record` was stored under `key` in a cache of capacity
/// `cap`: the new entry stands at the front; an older entry for `key` is
/// replaced; otherwise, in a full cache, the least recently used entry leaves.
pub open spec fn store(entries: Seq<Entry>, cap: nat, key: Text, record: IpDetailsView) -> Seq<
    Entry,
> {
    if holds(entries, key) {
        seq![(key, record)] + entries.remove(index_of(entries, key))
    } else if entries.len() == cap {
        seq![(key, record)] + entries.drop_last()
    } else {
        seq![(key, record)] + entries
    }
}

/// A cache in order: it can hold something, holds no more than it can, and no
/// address twice.
pub open spec fn in_order(entries: Seq<Entry>, cap: nat) -> bool {
    &&& cap > 0
    &&& entries.len() <= cap
    &&& distinct_keys(entries)
}

/// The entries as a mapping from address to record.
pub open spec fn as_map(entries: Seq<Entry>) -> Map<Text, IpDetailsView> {
    Map::new(|key: Text| holds(entries, key), |key: Text| record_of(entries, key))
}

/// `lru::LruCache::new`: the new cache is empty and remembers its capacity.
/// Memory is taken to suffice, as for every allocation.
#[verifier::external_body]
pub(crate) fn new_cache(cap: usize) -> (cache: LruCache<String, IpDetails>)
    requires
        0 < cap <= MAX_CACHE_SIZE,
    ensures
        cached_entries(cache) == Seq::<Entry>::empty(),
        capacity(cache) == cap,
{
    LruCache::new(NonZeroUsize::new(cap).unwrap())
}

/// `lru::LruCache::get`, with a copy of what it found: a cached address is
/// moved to the front and its record returned; for any other address nothing
/// is returned and nothing changes.
#[verifier::external_body]
pub(crate) fn cache_get(cache: &mut LruCache<String, IpDetails>, key: &String) -> (found: Option<
    IpDetails,
>)
    ensures
        capacity(*final(cache)) == capacity(*old(cache)),
        cached_entries(*final(cache)) == touch(cached_entries(*old(cache)), key@),
        match found {
            Some(record) => holds(cached_entries(*old(cache)), key@) && record@ == record_of(
                cached_entries(*old(cache)),
                key@,
            ),
            None => !holds(cached_entries(*old(cache)), key@),
        },
{
    cache.get(key).cloned()
}

/// `lru::LruCache::put`: the record is stored under the address as the most
/// recently used entry; it replaces an entry for the same address, and in a
/// full cache without one the least recently used entry is dropped.
#[verifier::external_body]
pub(crate) fn cache_put(cache: &mut LruCache<String, IpDetails>, key: String, record: IpDetails)
    ensures
        capacity(*final(cache)) == capacity(*old(cache)),
        cached_entries(*final(cache)) == store(
            cached_entries(*old(cache)),
            capacity(*old(cache)),
            key@,
            record@,
        ),
{
    cache.put(key, record);
}

/// Where no address has two entries, the entry at a place is the one that is
/// found under its address.
pub proof fn lemma_entry_at(entries: Seq<Entry>, i: int)
    requires
        distinct_keys(entries),
        0 <= i < entries.len(),
    ensures
        holds(entries, entries[i].0),
        index_of(entries, entries[i].0) == i,
        record_of(entries, entries[i].0) == entries[i].1,
{
    let key = entries[i].0;
    assert(holds(entries, key));
    let j = index_of(entries, key);
    assert(entries[j].0 == entries[i].0);
}

/// The place of a cached address is a place of the sequence.
pub proof fn lemma_index_of(entries: Seq<Entry>, key: Text)
    requires
        holds(entries, key),
    ensures
        0 <= index_of(entries, key) < entries.len(),
        entries[index_of(entries, key)].0 == key,
{
}

/// A use keeps what is cached: the same addresses with the same records, no
/// address twice, and every entry is one that was there before.
pub proof fn lemma_touch(entries: Seq<Entry>, key: Text)
    requires
        distinct_keys(entries),
    ensures
        distinct_keys(touch(entries, key)),
        touch(entries, key).len() == entries.len(),
        forall|other: Text| holds(touch(entries, key), other) == holds(entries, other),
        forall|other: Text|
            holds(entries, other) ==> record_of(touch(entries, key), other) == record_of(
                entries,
                other,
            ),
        forall|j: int|
            0 <= j < entries.len() ==> entries.contains(#[trigger] touch(entries, key)[j]),
        holds(entries, key) ==> touch(entries, key)[0] == (key, record_of(entries, key)),
{
    let after = touch(entries, key);
    if holds(entries, key) {
        let i = index_of(entries, key);
        lemma_index_of(entries, key);
        let origin = |j: int| if j == 0 { i } else if j <= i { j - 1 } else { j };
        assert forall|j: int| 0 <= j < after.len() implies #[trigger] after[j] == entries[origin(
            j,
        )] && 0 <= origin(j) < entries.len() by {}
        assert forall|a: int, b: int| 0 <= a < b < after.len() implies (#[trigger] after[a]).0 != (
        #[trigger] after[b]).0 by {
            assert(after[a] == entries[origin(a)]);
            assert(after[b] == entries[origin(b)]);
            assert(origin(a) != origin(b));
            if origin(a) < origin(b) {
                assert(entries[origin(a)].0 != entries[origin(b)].0);
            } else {
                assert(entries[origin(b)].0 != entries[origin(a)].0);
            }
        }
        assert forall|j: int| 0 <= j < entries.len() implies entries.contains(
            #[trigger] after[j],
        ) by {
            assert(after[j] == entries[origin(j)]);
        }
        assert forall|other: Text| holds(after, other) == holds(entries, other) by {
            if holds(entries, other) {
                let m = index_of(entries, other);
                lemma_index_of(entries, other);
                let j = if m == i { 0 } else if m < i { m + 1 } else { m };
                assert(after[j] == entries[m]);
                assert(after[j].0 == other);
            }
            if holds(after, other) {
                let j = index_of(after, other);
                lemma_index_of(after, other);
                assert(after[j] == entries[origin(j)]);
                assert(entries[origin(j)].0 == other);
            }
        }
        assert forall|other: Text| holds(entries, other) implies record_of(after, other)
            == record_of(entries, other) by {
            let j = index_of(after, other);
            lemma_index_of(after, other);
            assert(after[j] == entries[origin(j)]);
            lemma_entry_at(entries, origin(j));
        }
        assert(after[0] == entries[i]);
    } else {
        assert forall|j: int| 0 <= j < entries.len() implies entries.contains(
            #[trigger] after[j],
        ) by {}
    }
}

/// What a store does to a cache that is in order (no address twice, no more
/// entries than the capacity): the cache stays in order; the new entry stands
/// first; every other entry was there before; and every entry that was there
/// stays, but the one for the same address and, where a full cache had to
/// make room, the last one.
pub proof fn lemma_store(entries: Seq<Entry>, cap: nat, key: Text, record: IpDetailsView)
    requires
        distinct_keys(entries),
        entries.len() <= cap,
        cap > 0,
    ensures
        distinct_keys(store(entries, cap, key, record)),
        0 < store(entries, cap, key, record).len() <= cap,
        store(entries, cap, key, record)[0] == (key, record),
        holds(store(entries, cap, key, record), key),
        record_of(store(entries, cap, key, record), key) == record,
        forall|j: int|
            1 <= j < store(entries, cap, key, record).len() ==> entries.contains(
                #[trigger] store(entries, cap, key, record)[j],
            ),
        forall|other: Text|
            other != key && holds(store(entries, cap, key, record), other) ==> holds(
                entries,
                other,
            ) && record_of(store(entries, cap, key, record), other) == record_of(entries, other),
        forall|other: Text|
            other != key && holds(entries, other) && (holds(entries, key) || entries.len() < cap
                || other != entries.last().0) ==> holds(store(entries, cap, key, record), other),
        !holds(entries, key) && entries.len() == cap ==> !holds(
            store(entries, cap, key, record),
            entries.last().0,
        ),
{
    let after = store(entries, cap, key, record);
    let n = entries.len() as int;
    // Where each later entry of `after` stood in `entries`.
    let origin = |j: int|
        if holds(entries, key) {
            if j <= index_of(entries, key) {
                j - 1
            } else {
                j
            }
        } else {
            j - 1
        };
    if holds(entries, key) {
        lemma_index_of(entries, key);
    }
    assert forall|j: int| 1 <= j < after.len() implies #[trigger] after[j] == entries[origin(j)]
        && 0 <= origin(j) < n && entries[origin(j)].0 != key by {
        if holds(entries, key) {
            let i = index_of(entries, key);
            if origin(j) < i {
                assert(entries[origin(j)].0 != entries[i].0);
            } else {
                assert(entries[i].0 != entries[origin(j)].0);
            }
        } else {
            assert(entries[origin(j)].0 != key);
        }
    }
    assert forall|a: int, b: int| 0 <= a < b < after.len() implies (#[trigger] after[a]).0 != (
    #[trigger] after[b]).0 by {
        assert(after[b] == entries[origin(b)]);
        if a == 0 {
        } else {
            assert(after[a] == entries[origin(a)]);
            assert(origin(a) < origin(b));
            assert(entries[origin(a)].0 != entries[origin(b)].0);
        }
    }
    assert(after[0].0 == key);
    lemma_entry_at(after, 0);
    assert forall|j: int| 1 <= j < after.len() implies entries.contains(#[trigger] after[j]) by {
        assert(after[j] == entries[origin(j)]);
    }
    assert forall|other: Text| other != key && holds(after, other) implies holds(entries, other)
        && record_of(after, other) == record_of(entries, other) by {
        let j = index_of(after, other);
        lemma_index_of(after, other);
        assert(j >= 1);
        assert(after[j] == entries[origin(j)]);
        lemma_entry_at(entries, origin(j));
    }
    assert forall|other: Text|
        other != key && holds(entries, other) && (holds(entries, key) || entries.len() < cap
            || other != entries.last().0) implies holds(after, other) by {
        let m = index_of(entries, other);
        lemma_index_of(entries, other);
        if holds(entries, key) {
            let i = index_of(entries, key);
            let j = if m < i { m + 1 } else { m };
            assert(after[j] == entries[m]);
            assert(after[j].0 == other);
        } else if entries.len() < cap {
            assert(after[m + 1] == entries[m]);
            assert(after[m + 1].0 == other);
        } else {
            assert(m != n - 1);
            assert(after[m + 1] == entries[m]);
            assert(after[m + 1].0 == other);
        }
    }
    if !holds(entries, key) && entries.len() == cap {
        let last = entries.last().0;
        if holds(after, last) {
            let j = index_of(after, last);
            lemma_index_of(after, last);
            assert(j >= 1);
            assert(after[j] == entries[j - 1]);
            assert(j - 1 < n - 1);
            assert(entries[j - 1].0 != entries[n - 1].0);
        }
    }
}

} // verus!

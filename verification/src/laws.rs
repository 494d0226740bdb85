//! What holds of every lookup: laws of the model in which the contracts of
//! the engine are stated.
//!
//! In each law `entries` and `cap` are the cache before a lookup, `addresses`
//! the addresses asked for and `batch` the enriched records that the service
//! returned (empty where it was not asked). The lookup then returns
//! `merged(batch, hits_among(entries, addresses))` and leaves the cache as
//! `stored(probed(entries, addresses), cap, batch)`.

use crate::cache::{
    as_map, distinct_keys, holds, in_order, index_of, lemma_entry_at, lemma_index_of, lemma_store,
    record_of, store, Entry,
};
use crate::details::{IpDetailsView, Text};
use crate::model::{
    all_consistent, hits_among, lemma_probed, lemma_stored, merged, misses_among, probed, stored,
};
use crate::reference::{consistent, ReferenceView};
use crate::rows::table;
use vstd::prelude::*;

verus! {

/// The mapping of a sequence of pairs knows the addresses of the pairs, and
/// gives each the record of one of its pairs.
pub proof fn lemma_table(pairs: Seq<Entry>)
    ensures
        forall|address: Text| table(pairs).contains_key(address) == holds(pairs, address),
        forall|address: Text|
            holds(pairs, address) ==> pairs.contains((address, #[trigger] table(pairs)[address])),
    decreases pairs.len(),
{
    if pairs.len() > 0 {
        let earlier = pairs.drop_last();
        let last = pairs.last();
        lemma_table(earlier);
        assert forall|address: Text| table(pairs).contains_key(address) == holds(
            pairs,
            address,
        ) by {
            if holds(pairs, address) {
                let i = index_of(pairs, address);
                lemma_index_of(pairs, address);
                if i < earlier.len() {
                    assert(earlier[i].0 == address);
                }
            }
            if holds(earlier, address) {
                let i = index_of(earlier, address);
                lemma_index_of(earlier, address);
                assert(pairs[i].0 == address);
            }
            if address == last.0 {
                assert(pairs[pairs.len() - 1].0 == address);
            }
        }
        assert forall|address: Text| holds(pairs, address) implies pairs.contains(
            (address, #[trigger] table(pairs)[address]),
        ) by {
            if address == last.0 {
                assert(pairs[pairs.len() - 1] == (address, table(pairs)[address]));
            } else {
                assert(holds(earlier, address));
                let i = choose|i: int|
                    0 <= i < earlier.len() && earlier[i] == (address, table(earlier)[address]);
                assert(pairs[i] == (address, table(pairs)[address]));
            }
        }
    }
}

/// Of two sequences of pairs put one after the other, the second decides
/// wherever it knows the address.
pub proof fn lemma_table_append(first: Seq<Entry>, second: Seq<Entry>)
    ensures
        table(first + second) == table(first).union_prefer_right(table(second)),
    decreases second.len(),
{
    if second.len() == 0 {
        assert(first + second =~= first);
        assert(table(first + second) =~= table(first).union_prefer_right(table(second)));
    } else {
        lemma_table_append(first, second.drop_last());
        assert((first + second).drop_last() =~= first + second.drop_last());
        assert((first + second).last() == second.last());
        assert(table(first + second) =~= table(first).union_prefer_right(table(second)));
    }
}

/// The hits are the requested addresses that the cache holds, each with the
/// record that the cache holds for it; the misses are the other requested
/// addresses.
pub proof fn lemma_partition(entries: Seq<Entry>, addresses: Seq<Text>)
    ensures
        forall|address: Text|
            holds(hits_among(entries, addresses), address) == (addresses.contains(address)
                && holds(entries, address)),
        forall|address: Text|
            misses_among(entries, addresses).contains(address) == (addresses.contains(address)
                && !holds(entries, address)),
        forall|i: int|
            0 <= i < hits_among(entries, addresses).len() ==> (#[trigger] hits_among(
                entries,
                addresses,
            )[i]).1 == record_of(entries, hits_among(entries, addresses)[i].0),
    decreases addresses.len(),
{
    let hits = hits_among(entries, addresses);
    let misses = misses_among(entries, addresses);
    if addresses.len() > 0 {
        let earlier = addresses.drop_last();
        let last = addresses.last();
        lemma_partition(entries, earlier);
        let earlier_hits = hits_among(entries, earlier);
        let earlier_misses = misses_among(entries, earlier);
        assert forall|address: Text| addresses.contains(address) == (earlier.contains(address)
            || address == last) by {
            if addresses.contains(address) {
                let i = choose|i: int| 0 <= i < addresses.len() && addresses[i] == address;
                if i < earlier.len() {
                    assert(earlier[i] == address);
                }
            }
            if earlier.contains(address) {
                let i = choose|i: int| 0 <= i < earlier.len() && earlier[i] == address;
                assert(addresses[i] == address);
            }
            if address == last {
                assert(addresses[addresses.len() - 1] == address);
            }
        }
        assert forall|address: Text| holds(hits, address) == (addresses.contains(address) && holds(
            entries,
            address,
        )) by {
            if holds(hits, address) {
                let i = index_of(hits, address);
                lemma_index_of(hits, address);
                if i < earlier_hits.len() {
                    assert(earlier_hits[i].0 == address);
                }
            }
            if holds(earlier_hits, address) {
                let i = index_of(earlier_hits, address);
                lemma_index_of(earlier_hits, address);
                assert(hits[i].0 == address);
            }
            if address == last && holds(entries, address) {
                assert(hits[hits.len() - 1].0 == address);
            }
        }
        assert forall|address: Text| misses.contains(address) == (addresses.contains(address)
            && !holds(entries, address)) by {
            if misses.contains(address) {
                let i = choose|i: int| 0 <= i < misses.len() && misses[i] == address;
                if i < earlier_misses.len() {
                    assert(earlier_misses[i] == address);
                }
            }
            if earlier_misses.contains(address) {
                let i = choose|i: int|
                    0 <= i < earlier_misses.len() && earlier_misses[i] == address;
                assert(misses[i] == address);
            }
            if address == last && !holds(entries, address) {
                assert(misses[misses.len() - 1] == address);
            }
        }
    } else {
        assert forall|address: Text| !holds(hits, address) by {}
    }
}

/// On success a lookup returns a record for each address that was asked for
/// and for no other, provided that the service answered every address that it
/// was asked and none that the lookup did not name.
pub proof fn law_result_addresses(entries: Seq<Entry>, addresses: Seq<Text>, batch: Seq<Entry>)
    requires
        forall|address: Text|
            misses_among(entries, addresses).contains(address) ==> holds(batch, address),
        forall|address: Text| holds(batch, address) ==> addresses.contains(address),
    ensures
        merged(batch, hits_among(entries, addresses)).dom() == addresses.to_set(),
{
    let hits = hits_among(entries, addresses);
    lemma_partition(entries, addresses);
    lemma_table(batch + hits);
    assert forall|address: Text| holds(batch + hits, address) == (holds(batch, address) || holds(
        hits,
        address,
    )) by {
        lemma_holds_append(batch, hits, address);
    }
    assert(merged(batch, hits).dom() =~= addresses.to_set());
}

/// An address is known to two sequences put one after the other if one of the
/// two knows it.
pub proof fn lemma_holds_append(first: Seq<Entry>, second: Seq<Entry>, address: Text)
    ensures
        holds(first + second, address) == (holds(first, address) || holds(second, address)),
{
    let both = first + second;
    if holds(both, address) {
        let i = index_of(both, address);
        lemma_index_of(both, address);
        if i < first.len() {
            assert(first[i].0 == address);
        } else {
            assert(second[i - first.len()].0 == address);
        }
    }
    if holds(first, address) {
        let i = index_of(first, address);
        lemma_index_of(first, address);
        assert(both[i].0 == address);
    }
    if holds(second, address) {
        let i = index_of(second, address);
        lemma_index_of(second, address);
        assert(both[first.len() + i].0 == address);
    }
}

/// An address that the cache held before the lookup is returned with the
/// record that the cache held for it, whatever the service answered.
pub proof fn law_hits_are_returned_unchanged(
    entries: Seq<Entry>,
    addresses: Seq<Text>,
    batch: Seq<Entry>,
    address: Text,
)
    requires
        addresses.contains(address),
        holds(entries, address),
    ensures
        merged(batch, hits_among(entries, addresses)).contains_key(address),
        merged(batch, hits_among(entries, addresses))[address] == record_of(entries, address),
{
    let hits = hits_among(entries, addresses);
    lemma_partition(entries, addresses);
    lemma_table_append(batch, hits);
    lemma_table(hits);
    let found = table(hits)[address];
    let i = choose|i: int| 0 <= i < hits.len() && hits[i] == (address, found);
    assert(hits[i].1 == record_of(entries, hits[i].0));
}

/// Probing changes the order of the cache and nothing else: the same
/// addresses are cached, with the same records.
pub proof fn law_probing_keeps_the_cache(entries: Seq<Entry>, addresses: Seq<Text>)
    requires
        distinct_keys(entries),
    ensures
        as_map(probed(entries, addresses)) == as_map(entries),
{
    lemma_probed(entries, addresses);
    assert(as_map(probed(entries, addresses)) =~= as_map(entries));
}

/// Probing for addresses of which none is cached changes nothing at all.
pub proof fn law_misses_leave_the_cache(entries: Seq<Entry>, addresses: Seq<Text>)
    requires
        forall|i: int| 0 <= i < addresses.len() ==> !holds(entries, #[trigger] addresses[i]),
    ensures
        probed(entries, addresses) == entries,
        misses_among(entries, addresses) == addresses,
        hits_among(entries, addresses) == Seq::<Entry>::empty(),
    decreases addresses.len(),
{
    if addresses.len() > 0 {
        let earlier = addresses.drop_last();
        assert forall|i: int| 0 <= i < earlier.len() implies !holds(
            entries,
            #[trigger] earlier[i],
        ) by {
            assert(earlier[i] == addresses[i]);
        }
        law_misses_leave_the_cache(entries, earlier);
        assert(!holds(entries, addresses[addresses.len() - 1]));
        assert(earlier.push(addresses.last()) =~= addresses);
    } else {
        assert(misses_among(entries, addresses) =~= addresses);
    }
}

/// Every record that a lookup returns agrees with the reference tables, as
/// the records of the cache and of the enriched batch do.
pub proof fn law_result_is_consistent(
    reference: ReferenceView,
    batch: Seq<Entry>,
    hits: Seq<Entry>,
    address: Text,
)
    requires
        all_consistent(reference, batch),
        all_consistent(reference, hits),
        merged(batch, hits).contains_key(address),
    ensures
        consistent(reference, merged(batch, hits)[address]),
{
    let both = batch + hits;
    lemma_table(both);
    let found = table(both)[address];
    let i = choose|i: int| 0 <= i < both.len() && both[i] == (address, found);
    if i < batch.len() {
        assert(consistent(reference, batch[i].1));
    } else {
        assert(consistent(reference, hits[i - batch.len()].1));
    }
}

/// A batch of no more records than the cache can hold, no two for one
/// address, stands at the front of the cache once it is stored, the last
/// record first.
pub proof fn lemma_batch_in_front(entries: Seq<Entry>, cap: nat, batch: Seq<Entry>)
    requires
        in_order(entries, cap),
        distinct_keys(batch),
        batch.len() <= cap,
    ensures
        stored(entries, cap, batch).len() >= batch.len(),
        forall|i: int|
            0 <= i < batch.len() ==> #[trigger] stored(entries, cap, batch)[i] == batch[batch.len()
                - 1 - i],
    decreases batch.len(),
{
    let n = batch.len() as int;
    if n > 0 {
        let shorter = batch.drop_last();
        let earlier = stored(entries, cap, shorter);
        let key = batch[n - 1].0;
        let after = stored(entries, cap, batch);
        assert forall|a: int, b: int| 0 <= a < b < shorter.len() implies (#[trigger] shorter[a]).0
            != (#[trigger] shorter[b]).0 by {
            assert(batch[a].0 != batch[b].0);
        }
        lemma_batch_in_front(entries, cap, shorter);
        lemma_stored(entries, cap, shorter);
        lemma_store(earlier, cap, key, batch[n - 1].1);
        if holds(earlier, key) {
            let at = index_of(earlier, key);
            lemma_index_of(earlier, key);
            if at < n - 1 {
                assert(earlier[at] == shorter[n - 2 - at]);
                assert(batch[n - 2 - at].0 != batch[n - 1].0);
            }
            assert forall|i: int| 0 <= i < n implies #[trigger] after[i] == batch[n - 1 - i] by {
                if i > 0 {
                    assert(after[i] == earlier[i - 1]);
                    assert(earlier[i - 1] == shorter[n - 2 - (i - 1)]);
                }
            }
        } else {
            assert forall|i: int| 0 <= i < n implies #[trigger] after[i] == batch[n - 1 - i] by {
                if i > 0 {
                    assert(after[i] == earlier[i - 1]);
                    assert(earlier[i - 1] == shorter[n - 2 - (i - 1)]);
                }
            }
        }
    }
}

/// What is cached after a batch was stored: an address that the batch does
/// not name has the record it had before, and an address that the batch names
/// has the record that the batch gives it (the last, if it gives several).
pub proof fn lemma_stored_records(entries: Seq<Entry>, cap: nat, batch: Seq<Entry>, address: Text)
    requires
        in_order(entries, cap),
        holds(stored(entries, cap, batch), address),
    ensures
        !holds(batch, address) ==> holds(entries, address) && record_of(
            stored(entries, cap, batch),
            address,
        ) == record_of(entries, address),
        holds(batch, address) ==> record_of(stored(entries, cap, batch), address) == table(
            batch,
        )[address],
    decreases batch.len(),
{
    if batch.len() > 0 {
        let shorter = batch.drop_last();
        let last = batch.last();
        let earlier = stored(entries, cap, shorter);
        lemma_stored(entries, cap, shorter);
        lemma_store(earlier, cap, last.0, last.1);
        assert(batch =~= shorter + seq![last]);
        lemma_holds_append(shorter, seq![last], address);
        assert(holds(seq![last], address) == (last.0 == address)) by {
            if last.0 == address {
                assert(seq![last][0].0 == address);
            }
        }
        if last.0 != address {
            lemma_stored_records(entries, cap, shorter, address);
        }
    }
}

/// After a successful lookup an address that it returned is answered from the
/// cache: a lookup of that address alone has no miss, so that the service is
/// not asked, and returns the record that the first lookup returned.
///
/// This holds of every address whose record is still cached when the first
/// lookup ends (later records of the same batch may displace it), unless the
/// service answered an address that the cache had answered already, and
/// answered it otherwise than the cache.
pub proof fn law_repeated_lookup_is_a_hit(
    entries: Seq<Entry>,
    cap: nat,
    addresses: Seq<Text>,
    batch: Seq<Entry>,
    address: Text,
)
    requires
        in_order(entries, cap),
        merged(batch, hits_among(entries, addresses)).contains_key(address),
        holds(stored(probed(entries, addresses), cap, batch), address),
        holds(batch, address) && holds(hits_among(entries, addresses), address) ==> table(
            batch,
        )[address] == record_of(entries, address),
    ensures
        misses_among(stored(probed(entries, addresses), cap, batch), seq![address]) == Seq::<
            Text,
        >::empty(),
        hits_among(stored(probed(entries, addresses), cap, batch), seq![address]) == seq![
            (address, merged(batch, hits_among(entries, addresses))[address]),
        ],
        merged(
            Seq::empty(),
            hits_among(stored(probed(entries, addresses), cap, batch), seq![address]),
        ) == Map::<Text, IpDetailsView>::empty().insert(
            address,
            merged(batch, hits_among(entries, addresses))[address],
        ),
{
    let hits = hits_among(entries, addresses);
    let probes = probed(entries, addresses);
    let after = stored(probes, cap, batch);
    let returned = merged(batch, hits)[address];
    lemma_probed(entries, addresses);
    lemma_partition(entries, addresses);
    lemma_stored_records(probes, cap, batch, address);
    lemma_table_append(batch, hits);
    lemma_table(hits);
    lemma_table(batch);
    lemma_table(batch + hits);
    lemma_holds_append(batch, hits, address);
    if holds(hits, address) {
        law_hits_are_returned_unchanged(entries, addresses, batch, address);
    }
    assert(record_of(after, address) == returned);
    let alone = seq![address];
    assert(alone.drop_last() =~= Seq::<Text>::empty());
    assert(alone.last() == address);
    assert(misses_among(after, alone.drop_last()) =~= Seq::<Text>::empty());
    assert(hits_among(after, alone.drop_last()) =~= Seq::<Entry>::empty());
    assert(misses_among(after, alone) =~= Seq::<Text>::empty());
    let again = hits_among(after, alone);
    assert(again =~= seq![(address, returned)]);
    assert((Seq::<Entry>::empty() + again) =~= again);
    assert(again.drop_last() =~= Seq::<Entry>::empty());
    assert(table(again.drop_last()) =~= Map::<Text, IpDetailsView>::empty());
    assert(table(again) =~= Map::<Text, IpDetailsView>::empty().insert(address, returned));
}

/// A batch that fits into the cache is cached whole: where no two records of
/// the batch are for one address and they are no more than the capacity,
/// each of them is in the cache after the lookup.
pub proof fn law_batch_is_retained(entries: Seq<Entry>, cap: nat, batch: Seq<Entry>, i: int)
    requires
        in_order(entries, cap),
        distinct_keys(batch),
        batch.len() <= cap,
        0 <= i < batch.len(),
    ensures
        holds(stored(entries, cap, batch), batch[i].0),
        record_of(stored(entries, cap, batch), batch[i].0) == batch[i].1,
{
    lemma_batch_in_front(entries, cap, batch);
    lemma_stored(entries, cap, batch);
    let after = stored(entries, cap, batch);
    assert(after[batch.len() - 1 - i] == batch[i]);
    lemma_entry_at(after, batch.len() - 1 - i);
}

/// A record stored for a new address in a full cache takes the place of the
/// least recently used entry, which is then no longer cached.
pub proof fn law_full_cache_drops_least_recent(
    entries: Seq<Entry>,
    cap: nat,
    address: Text,
    record: IpDetailsView,
)
    requires
        in_order(entries, cap),
        entries.len() == cap,
        !holds(entries, address),
    ensures
        store(entries, cap, address, record) == seq![(address, record)] + entries.drop_last(),
        !holds(store(entries, cap, address, record), entries.last().0),
        misses_among(store(entries, cap, address, record), seq![entries.last().0]) == seq![
            entries.last().0,
        ],
{
    lemma_store(entries, cap, address, record);
    let after = store(entries, cap, address, record);
    let gone = entries.last().0;
    let alone = seq![gone];
    assert(alone.drop_last() =~= Seq::<Text>::empty());
    assert(misses_among(after, alone.drop_last()) =~= Seq::<Text>::empty());
    assert(misses_among(after, alone) =~= seq![gone]);
}

/// With a cache of capacity K, after K + 1 records for K + 1 different
/// addresses were stored, the first of them is no longer cached, so that a
/// lookup of its address is a miss; the K later ones are cached.
pub proof fn law_capacity_evicts_oldest(entries: Seq<Entry>, cap: nat, batch: Seq<Entry>)
    requires
        in_order(entries, cap),
        distinct_keys(batch),
        batch.len() == cap + 1,
    ensures
        stored(entries, cap, batch).len() == cap,
        !holds(stored(entries, cap, batch), batch[0].0),
        misses_among(stored(entries, cap, batch), seq![batch[0].0]) == seq![batch[0].0],
        forall|i: int|
            1 <= i <= cap ==> holds(stored(entries, cap, batch), (#[trigger] batch[i]).0)
                && record_of(stored(entries, cap, batch), batch[i].0) == batch[i].1,
{
    let n = batch.len() as int;
    let shorter = batch.drop_last();
    let earlier = stored(entries, cap, shorter);
    let last = batch.last();
    let after = stored(entries, cap, batch);
    assert forall|a: int, b: int| 0 <= a < b < shorter.len() implies (#[trigger] shorter[a]).0 != (
    #[trigger] shorter[b]).0 by {
        assert(batch[a].0 != batch[b].0);
    }
    lemma_batch_in_front(entries, cap, shorter);
    lemma_stored(entries, cap, shorter);
    assert(earlier.len() == cap);
    if holds(earlier, last.0) {
        let at = index_of(earlier, last.0);
        lemma_index_of(earlier, last.0);
        assert(earlier[at] == shorter[cap - 1 - at]);
        assert(batch[cap - 1 - at].0 != batch[n - 1].0);
    }
    assert(earlier.last() == shorter[0]);
    law_full_cache_drops_least_recent(earlier, cap, last.0, last.1);
    lemma_store(earlier, cap, last.0, last.1);
    assert forall|i: int| 1 <= i <= cap implies holds(after, (#[trigger] batch[i]).0) && record_of(
        after,
        batch[i].0,
    ) == batch[i].1 by {
        if i == cap {
            assert(batch[i] == last);
        } else {
            assert(earlier[cap - 1 - i] == shorter[i]);
            lemma_entry_at(earlier, cap - 1 - i);
            assert(batch[i].0 != batch[n - 1].0);
            assert(batch[0].0 != batch[i].0);
        }
    }
}

/// Storing one batch after another is storing the two as one: lookups of
/// addresses that are not cached, which leave the cache alone until they store
/// (`law_misses_leave_the_cache`), fill it as one lookup of all their
/// addresses would.
pub proof fn law_batches_compose(
    entries: Seq<Entry>,
    cap: nat,
    first: Seq<Entry>,
    second: Seq<Entry>,
)
    ensures
        stored(stored(entries, cap, first), cap, second) == stored(entries, cap, first + second),
    decreases second.len(),
{
    if second.len() == 0 {
        assert(first + second =~= first);
    } else {
        law_batches_compose(entries, cap, first, second.drop_last());
        assert((first + second).drop_last() =~= first + second.drop_last());
        assert((first + second).last() == second.last());
    }
}

} // verus!

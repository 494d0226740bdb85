//! The batch lookup as mathematics: what probing, storing and merging do to
//! the entries of the cache and to the result, whatever the code that does it.

use crate::cache::{
    distinct_keys, holds, in_order, lemma_store, lemma_touch, record_of, store, touch, Entry,
};
use crate::details::{IpDetailsView, Text};
use crate::error::{failure, failure_with, refusal, IpErrorKind, IpErrorView};
use crate::json::{parsed, Json};
use crate::reference::{consistent, covers, enriched_record, ReferenceView};
use crate::request::TOO_MANY_REQUESTS;
use crate::rows::table;
use crate::wire::{bare, wire_batch, wire_error};
use vstd::prelude::*;

verus! {

/// The entries of the cache after each of the addresses was probed, in order.
pub open spec fn probed(entries: Seq<Entry>, addresses: Seq<Text>) -> Seq<Entry>
    decreases addresses.len(),
{
    if addresses.len() == 0 {
        entries
    } else {
        touch(probed(entries, addresses.drop_last()), addresses.last())
    }
}

/// The addresses that the cache answers, each with its record, in the order
/// of the request and as often as they were asked for.
pub open spec fn hits_among(entries: Seq<Entry>, addresses: Seq<Text>) -> Seq<Entry>
    decreases addresses.len(),
{
    if addresses.len() == 0 {
        Seq::empty()
    } else if holds(entries, addresses.last()) {
        hits_among(entries, addresses.drop_last()).push(
            (addresses.last(), record_of(entries, addresses.last())),
        )
    } else {
        hits_among(entries, addresses.drop_last())
    }
}

/// The addresses that the cache does not answer, in the order of the request
/// and as often as they were asked for.
pub open spec fn misses_among(entries: Seq<Entry>, addresses: Seq<Text>) -> Seq<Text>
    decreases addresses.len(),
{
    if addresses.len() == 0 {
        Seq::empty()
    } else if holds(entries, addresses.last()) {
        misses_among(entries, addresses.drop_last())
    } else {
        misses_among(entries, addresses.drop_last()).push(addresses.last())
    }
}

/// The entries of the cache after each record of a batch was stored, in order.
pub open spec fn stored(entries: Seq<Entry>, cap: nat, batch: Seq<Entry>) -> Seq<Entry>
    decreases batch.len(),
{
    if batch.len() == 0 {
        entries
    } else {
        store(stored(entries, cap, batch.drop_last()), cap, batch.last().0, batch.last().1)
    }
}

/// The result of a lookup: the records of the batch together with the hits,
/// where a hit counts before a record of the batch for the same address.
pub open spec fn merged(batch: Seq<Entry>, hits: Seq<Entry>) -> Map<Text, IpDetailsView> {
    table(batch + hits)
}

/// Can every record of the batch be enriched: has it no country, or one that
/// the reference tables know?
pub open spec fn enrichable(reference: ReferenceView, batch: Seq<Entry>) -> bool {
    forall|i: int|
        0 <= i < batch.len() ==> (#[trigger] batch[i]).1.country.len() == 0 || covers(
            reference,
            batch[i].1.country,
        )
}

/// The batch with every record enriched.
pub open spec fn enriched_batch(reference: ReferenceView, batch: Seq<Entry>) -> Seq<Entry> {
    Seq::new(batch.len(), |i: int| (batch[i].0, enriched_record(reference, batch[i].1)))
}

/// No record of the batch has a derived field.
pub open spec fn all_bare(batch: Seq<Entry>) -> bool {
    forall|i: int| 0 <= i < batch.len() ==> bare((#[trigger] batch[i]).1)
}

/// The derived fields of every record agree with the reference tables.
pub open spec fn all_consistent(reference: ReferenceView, entries: Seq<Entry>) -> bool {
    forall|i: int| 0 <= i < entries.len() ==> consistent(reference, (#[trigger] entries[i]).1)
}

/// The derived fields of every record of a mapping agree with the reference
/// tables.
pub open spec fn consistent_map(reference: ReferenceView, map: Map<Text, IpDetailsView>) -> bool {
    forall|address: Text|
        map.contains_key(address) ==> consistent(reference, #[trigger] map[address])
}

/// What a reply document amounts to: the enriched batch that it holds, or the
/// failure. An error report is a refused request with its message; any other
/// document must be a batch of records, each of which the reference tables
/// can enrich.
pub open spec fn document_verdict(reference: ReferenceView, doc: Json) -> Result<
    Seq<Entry>,
    IpErrorView,
> {
    if wire_error(doc) is Some {
        Err(failure_with(IpErrorKind::IpRequestError, wire_error(doc)->0))
    } else if wire_batch(doc) is None {
        Err(failure(IpErrorKind::ParseError))
    } else if !enrichable(reference, wire_batch(doc)->0) {
        Err(failure(IpErrorKind::ReferenceDataError))
    } else {
        Ok(enriched_batch(reference, wire_batch(doc)->0))
    }
}

/// Is the status one of success?
pub open spec fn is_success(status: u16) -> bool {
    200 <= status <= 299
}

/// What a reply amounts to: status 429 is the exhausted quota, any other
/// status that is not one of success a refused request; the body of a
/// successful reply must be JSON, and then counts as its document does.
pub open spec fn reply_verdict(reference: ReferenceView, status: u16, body: Text) -> Result<
    Seq<Entry>,
    IpErrorView,
> {
    if status == TOO_MANY_REQUESTS {
        Err(failure(IpErrorKind::RateLimitExceededError))
    } else if !is_success(status) {
        Err(refusal(status))
    } else if parsed(body) is None {
        Err(failure(IpErrorKind::ParseError))
    } else {
        document_verdict(reference, parsed(body)->0)
    }
}

/// Probing keeps what is cached: the cache stays in order, with the same
/// addresses and the same records.
pub proof fn lemma_probed(entries: Seq<Entry>, addresses: Seq<Text>)
    requires
        distinct_keys(entries),
    ensures
        distinct_keys(probed(entries, addresses)),
        probed(entries, addresses).len() == entries.len(),
        forall|other: Text| holds(probed(entries, addresses), other) == holds(entries, other),
        forall|other: Text|
            holds(entries, other) ==> record_of(probed(entries, addresses), other) == record_of(
                entries,
                other,
            ),
        forall|j: int|
            0 <= j < entries.len() ==> entries.contains(#[trigger] probed(entries, addresses)[j]),
    decreases addresses.len(),
{
    if addresses.len() > 0 {
        let earlier = probed(entries, addresses.drop_last());
        lemma_probed(entries, addresses.drop_last());
        lemma_touch(earlier, addresses.last());
        let after = probed(entries, addresses);
        assert forall|j: int| 0 <= j < entries.len() implies entries.contains(
            #[trigger] after[j],
        ) by {
            let k = choose|k: int| 0 <= k < earlier.len() && earlier[k] == after[j];
            assert(entries.contains(earlier[k]));
        }
    } else {
        assert forall|j: int| 0 <= j < entries.len() implies entries.contains(
            #[trigger] probed(entries, addresses)[j],
        ) by {}
    }
}

/// Storing a batch keeps the cache in order, and every entry afterwards is
/// one of before or one of the batch.
pub proof fn lemma_stored(entries: Seq<Entry>, cap: nat, batch: Seq<Entry>)
    requires
        in_order(entries, cap),
    ensures
        in_order(stored(entries, cap, batch), cap),
        forall|j: int|
            0 <= j < stored(entries, cap, batch).len() ==> entries.contains(
                #[trigger] stored(entries, cap, batch)[j],
            ) || batch.contains(stored(entries, cap, batch)[j]),
    decreases batch.len(),
{
    if batch.len() > 0 {
        let earlier = stored(entries, cap, batch.drop_last());
        lemma_stored(entries, cap, batch.drop_last());
        lemma_store(earlier, cap, batch.last().0, batch.last().1);
        let after = stored(entries, cap, batch);
        assert forall|j: int| 0 <= j < after.len() implies entries.contains(#[trigger] after[j])
            || batch.contains(after[j]) by {
            if j == 0 {
                assert(after[0] == batch[batch.len() - 1]);
            } else {
                assert(earlier.contains(after[j]));
                let k = choose|k: int| 0 <= k < earlier.len() && earlier[k] == after[j];
                if batch.drop_last().contains(earlier[k]) {
                    let m = choose|m: int|
                        0 <= m < batch.drop_last().len() && batch.drop_last()[m] == earlier[k];
                    assert(batch[m] == after[j]);
                }
            }
        }
    } else {
        assert forall|j: int| 0 <= j < entries.len() implies entries.contains(
            #[trigger] stored(entries, cap, batch)[j],
        ) by {}
    }
}

/// Records without derived fields that can be enriched agree with the
/// reference tables once they are enriched.
pub proof fn lemma_enriched_consistent(reference: ReferenceView, batch: Seq<Entry>)
    requires
        all_bare(batch),
        enrichable(reference, batch),
    ensures
        all_consistent(reference, enriched_batch(reference, batch)),
{
    let enriched = enriched_batch(reference, batch);
    assert forall|i: int| 0 <= i < enriched.len() implies consistent(
        reference,
        (#[trigger] enriched[i]).1,
    ) by {
        assert(bare(batch[i].1));
    }
}

} // verus!

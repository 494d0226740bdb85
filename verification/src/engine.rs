//! The lookup engine: it owns the cache and the reference tables and resolves
//! batches of addresses, asking the remote service only for what the cache
//! does not hold.

use crate::cache::{
    as_map, cache_get, cache_put, cached_entries, capacity, holds, in_order, index_of,
    lemma_index_of, lemma_store, new_cache, record_of, Entry, MAX_CACHE_SIZE,
};
use crate::config::IpInfoConfig;
use crate::details::{text_of, IpDetails, Text};
use crate::error::{failure, IpError, IpErrorKind, IpErrorView};
use crate::json::{document, parse};
use crate::laws::{
    law_hits_are_returned_unchanged, law_probing_keeps_the_cache, law_result_addresses,
    law_result_is_consistent,
};
use crate::model::{
    all_bare, all_consistent, consistent_map, document_verdict, enrichable, enriched_batch,
    hits_among, lemma_enriched_consistent, lemma_probed, merged, misses_among, probed,
    reply_verdict, stored,
};
use crate::reference::{
    consistent, covers, parsed_reference, ReferenceData, ReferenceSources, ReferenceView,
};
use crate::request::{
    batch_url, bearer, canonical_headers, header_texts, texts_of, BatchRequest, Reply, BASE_URL,
    METHOD, TOO_MANY_REQUESTS, VERSION,
};
use crate::results::DetailsMap;
use crate::rows::{entries_of, table};
use crate::wire::{bare, read_batch, read_error, wire_batch, wire_error, wire_record};
use lru::LruCache;
use serde_json::Value;
use vstd::prelude::*;
use vstd::string::StringExecFns;

verus! {

/// IPinfo requests context structure.
pub struct IpInfo {
    url: String,
    token: Option<String>,
    cache: LruCache<String, IpDetails>,
    reference: ReferenceData,
}

/// What probing the cache for a batch of addresses gives: the records that it
/// holds, each with its address, and the addresses that it does not hold.
#[derive(Debug)]
pub struct Partition {
    pub hits: Vec<(String, IpDetails)>,
    pub misses: Vec<String>,
}

/// The addresses that a request asks for.
pub open spec fn addresses(ips: Seq<&str>) -> Seq<Text> {
    Seq::new(ips.len(), |i: int| ips[i]@)
}

/// How a lookup ends, given what the reply amounts to: with a batch, the
/// batch is stored in the cache and the result is the batch merged with the
/// hits; with a failure, the failure is returned and the cache stays as it is.
pub open spec fn concludes(
    before: Seq<Entry>,
    cap: nat,
    hits: Seq<Entry>,
    verdict: Result<Seq<Entry>, IpErrorView>,
    after: Seq<Entry>,
    outcome: Result<DetailsMap, IpError>,
) -> bool {
    match verdict {
        Ok(batch) => outcome is Ok && outcome->Ok_0@ == merged(batch, hits) && after == stored(
            before,
            cap,
            batch,
        ),
        Err(error) => outcome is Err && outcome->Err_0@ == error && after == before,
    }
}

/// How a lookup ends, given what the exchange with the service gave: a reply
/// counts as `reply_verdict` says; a failed exchange is returned as it is, and
/// the cache stays as it is.
pub open spec fn concludes_exchange(
    reference: ReferenceView,
    before: Seq<Entry>,
    cap: nat,
    hits: Seq<Entry>,
    answer: Result<Reply, IpError>,
    after: Seq<Entry>,
    outcome: Result<DetailsMap, IpError>,
) -> bool {
    match answer {
        Ok(reply) => concludes(
            before,
            cap,
            hits,
            reply_verdict(reference, reply.status, reply.body@),
            after,
            outcome,
        ),
        Err(error) => outcome is Err && outcome->Err_0@ == error@ && after == before,
    }
}

impl IpInfo {
    /// The entries of the cache, from the most recently used to the least.
    pub closed spec fn entries(&self) -> Seq<Entry> {
        cached_entries(self.cache)
    }

    /// The number of entries that the cache can hold.
    pub closed spec fn cap(&self) -> nat {
        capacity(self.cache)
    }

    /// The reference tables.
    pub closed spec fn reference(&self) -> ReferenceView {
        self.reference@
    }

    /// The access token, if one is configured.
    pub closed spec fn token(&self) -> Option<Text> {
        text_of(self.token)
    }

    /// The address of the service.
    pub closed spec fn url(&self) -> Text {
        self.url@
    }

    /// The engine is in order: its cache is, and the derived fields of every
    /// cached record agree with the reference tables.
    pub open spec fn wf(&self) -> bool {
        &&& in_order(self.entries(), self.cap())
        &&& all_consistent(self.reference(), self.entries())
    }

    /// The request is the one that this engine sends for these addresses.
    pub open spec fn asks(&self, request: BatchRequest, misses: Seq<Text>) -> bool {
        &&& request.method@ == METHOD@
        &&& request.url@ == batch_url(self.url())
        &&& request.token@ == bearer(self.token())
        &&& header_texts(request.headers@) == canonical_headers()
        &&& texts_of(request.addresses@) == misses
    }

    /// Everything but the cache is as in `before`.
    pub open spec fn same_setup(&self, before: &IpInfo) -> bool {
        &&& self.cap() == before.cap()
        &&& self.reference() == before.reference()
        &&& self.token() == before.token()
        &&& self.url() == before.url()
    }

    /// An engine with an empty cache of the configured size, the configured
    /// token and the given reference tables.
    pub fn with_reference(config: IpInfoConfig, reference: ReferenceData) -> (engine: IpInfo)
        requires
            0 < config.cache_size <= MAX_CACHE_SIZE,
        ensures
            engine.wf(),
            engine.entries() == Seq::<Entry>::empty(),
            engine.cap() == config.cache_size,
            engine.reference() == reference@,
            engine.token() == text_of(config.token),
            engine.url() == BASE_URL@,
    {
        IpInfo {
            url: String::from_str(BASE_URL),
            token: config.token,
            cache: new_cache(config.cache_size),
            reference,
        }
    }

    /// Construct a new IpInfo structure: an engine with an empty cache of the
    /// configured size, whose reference tables are read from the five JSON
    /// texts. It fails, with `ReferenceDataError`, if one of the texts does
    /// not describe its table.
    pub fn new(config: IpInfoConfig, sources: &ReferenceSources) -> (outcome: Result<
        IpInfo,
        IpError,
    >)
        requires
            0 < config.cache_size <= MAX_CACHE_SIZE,
        ensures
            match outcome {
                Ok(engine) => {
                    &&& engine.wf()
                    &&& engine.entries() == Seq::<Entry>::empty()
                    &&& engine.cap() == config.cache_size
                    &&& engine.token() == text_of(config.token)
                    &&& engine.url() == BASE_URL@
                    &&& parsed_reference(
                        sources.countries@,
                        sources.eu@,
                        sources.country_flags@,
                        sources.country_currencies@,
                        sources.continents@,
                    ) == Some(engine.reference())
                },
                Err(error) => error@ == failure(IpErrorKind::ReferenceDataError)
                    && parsed_reference(
                    sources.countries@,
                    sources.eu@,
                    sources.country_flags@,
                    sources.country_currencies@,
                    sources.continents@,
                ) is None,
            },
    {
        match ReferenceData::parse(sources) {
            Ok(reference) => Ok(IpInfo::with_reference(config, reference)),
            Err(error) => Err(error),
        }
    }

    /// Construct API request headers.
    pub fn construct_headers() -> (headers: Vec<(String, String)>)
        ensures
            header_texts(headers@) == canonical_headers(),
    {
        let agent = String::from_str("IPinfoClient/Rust/").concat(VERSION);
        let mut headers: Vec<(String, String)> = Vec::new();
        headers.push((String::from_str("user-agent"), agent));
        headers.push((String::from_str("content-type"), String::from_str("application/json")));
        headers.push((String::from_str("accept"), String::from_str("application/json")));
        assert(header_texts(headers@) =~= canonical_headers());
        headers
    }

    /// Splits the requested addresses into those that the cache holds and
    /// those that it does not. Each address is probed in turn, repeated ones
    /// again; a probe counts as a use of the entry.
    pub fn partition(&mut self, ips: &[&str]) -> (parts: Partition)
        requires
            old(self).wf(),
        ensures
            final(self).wf(),
            final(self).same_setup(old(self)),
            final(self).entries() == probed(old(self).entries(), addresses(ips@)),
            entries_of(parts.hits@) == hits_among(old(self).entries(), addresses(ips@)),
            texts_of(parts.misses@) == misses_among(old(self).entries(), addresses(ips@)),
            all_consistent(old(self).reference(), entries_of(parts.hits@)),
    {
        let ghost before = self.entries();
        let ghost wanted = addresses(ips@);
        let mut hits: Vec<(String, IpDetails)> = Vec::new();
        let mut misses: Vec<String> = Vec::new();
        let mut i: usize = 0;
        while i < ips.len()
            invariant
                0 <= i <= ips.len(),
                wanted == addresses(ips@),
                before == old(self).entries(),
                old(self).wf(),
                self.same_setup(old(self)),
                self.entries() == probed(before, wanted.take(i as int)),
                entries_of(hits@) == hits_among(before, wanted.take(i as int)),
                texts_of(misses@) == misses_among(before, wanted.take(i as int)),
                all_consistent(self.reference(), entries_of(hits@)),
            decreases ips.len() - i,
        {
            let key = ips[i].to_owned();
            proof {
                lemma_probed(before, wanted.take(i as int));
                assert(wanted.take(i + 1).drop_last() =~= wanted.take(i as int));
                assert(wanted.take(i + 1).last() == key@);
            }
            let ghost earlier_hits = entries_of(hits@);
            let ghost earlier_misses = texts_of(misses@);
            match cache_get(&mut self.cache, &key) {
                Some(record) => {
                    proof {
                        lemma_index_of(before, key@);
                        assert(consistent(self.reference(), before[index_of(before, key@)].1));
                    }
                    hits.push((key, record));
                    assert(entries_of(hits@) =~= earlier_hits.push(
                        (key@, record_of(before, key@)),
                    ));
                },
                None => {
                    misses.push(key);
                    assert(texts_of(misses@) =~= earlier_misses.push(key@));
                },
            }
            i = i + 1;
        }
        proof {
            assert(wanted.take(ips.len() as int) =~= wanted);
            lemma_probed(before, wanted);
            let after = self.entries();
            assert forall|j: int| 0 <= j < after.len() implies consistent(
                self.reference(),
                (#[trigger] after[j]).1,
            ) by {
                let k = choose|k: int| 0 <= k < before.len() && before[k] == after[j];
                assert(consistent(self.reference(), before[k].1));
            }
        }
        Partition { hits, misses }
    }

    /// The request that asks the service for the given addresses.
    pub fn request(&self, misses: Vec<String>) -> (request: BatchRequest)
        ensures
            self.asks(request, texts_of(misses@)),
    {
        let token = match &self.token {
            Some(token) => token.clone(),
            None => String::new(),
        };
        BatchRequest {
            method: String::from_str(METHOD),
            url: self.url.clone().concat("/batch"),
            token,
            headers: IpInfo::construct_headers(),
            addresses: misses,
        }
    }

    /// Enriches the records of a batch, stores each in the cache under its
    /// address, and returns them together with the hits. The reference tables
    /// must know the country of every record that names one.
    pub fn merge(
        &mut self,
        hits: Vec<(String, IpDetails)>,
        records: Vec<(String, IpDetails)>,
    ) -> (map: DetailsMap)
        requires
            old(self).wf(),
            all_bare(entries_of(records@)),
            enrichable(old(self).reference(), entries_of(records@)),
        ensures
            final(self).wf(),
            final(self).same_setup(old(self)),
            final(self).entries() == stored(
                old(self).entries(),
                old(self).cap(),
                enriched_batch(old(self).reference(), entries_of(records@)),
            ),
            map@ == merged(
                enriched_batch(old(self).reference(), entries_of(records@)),
                entries_of(hits@),
            ),
            all_consistent(old(self).reference(), entries_of(hits@)) ==> consistent_map(
                old(self).reference(),
                map@,
            ),
    {
        let ghost before = self.entries();
        let ghost cap = self.cap();
        let ghost batch = enriched_batch(self.reference(), entries_of(records@));
        let ghost cached = entries_of(hits@);
        proof {
            lemma_enriched_consistent(self.reference(), entries_of(records@));
        }
        let mut map = DetailsMap::new();
        let mut i: usize = 0;
        while i < records.len()
            invariant
                0 <= i <= records.len(),
                batch == enriched_batch(self.reference(), entries_of(records@)),
                enrichable(self.reference(), entries_of(records@)),
                all_consistent(self.reference(), batch),
                self.same_setup(old(self)),
                cap == self.cap(),
                in_order(self.entries(), cap),
                all_consistent(self.reference(), self.entries()),
                self.entries() == stored(before, cap, batch.take(i as int)),
                map@ == table(batch.take(i as int)),
            decreases records.len() - i,
        {
            let ghost earlier = self.entries();
            let address = records[i].0.clone();
            let mut record = records[i].1.clone();
            assert(entries_of(records@)[i as int].1 == record@);
            self.reference.enrich(&mut record);
            proof {
                assert(batch.take(i + 1).drop_last() =~= batch.take(i as int));
                assert(batch.take(i + 1).last() == (address@, record@));
                lemma_store(earlier, cap, address@, record@);
                assert(batch[i as int] == (address@, record@));
            }
            cache_put(&mut self.cache, address.clone(), record.clone());
            proof {
                let after = self.entries();
                assert forall|j: int| 0 <= j < after.len() implies consistent(
                    self.reference(),
                    (#[trigger] after[j]).1,
                ) by {
                    if j > 0 {
                        let k = choose|k: int| 0 <= k < earlier.len() && earlier[k] == after[j];
                        assert(consistent(self.reference(), earlier[k].1));
                    }
                }
            }
            map.insert(address, record);
            i = i + 1;
        }
        assert(batch.take(records.len() as int) =~= batch);
        let mut j: usize = 0;
        while j < hits.len()
            invariant
                0 <= j <= hits.len(),
                cached == entries_of(hits@),
                map@ == table(batch + cached.take(j as int)),
            decreases hits.len() - j,
        {
            proof {
                let longer = batch + cached.take(j + 1);
                assert(longer.drop_last() =~= batch + cached.take(j as int));
                assert(longer.last() == cached[j as int]);
            }
            map.insert(hits[j].0.clone(), hits[j].1.clone());
            j = j + 1;
        }
        assert(cached.take(hits.len() as int) =~= cached);
        proof {
            if all_consistent(self.reference(), cached) {
                assert forall|address: Text| map@.contains_key(address) implies consistent(
                    self.reference(),
                    #[trigger] map@[address],
                ) by {
                    law_result_is_consistent(self.reference(), batch, cached, address);
                }
            }
        }
        map
    }

    /// Ends a lookup with the document of a successful reply: an error report
    /// fails it, as does a document that is no batch of records, or one with
    /// the record of a country that the reference tables do not know. A
    /// failure leaves the cache untouched.
    pub fn resolve_document(&mut self, hits: Vec<(String, IpDetails)>, doc: &Value) -> (outcome:
        Result<DetailsMap, IpError>)
        requires
            old(self).wf(),
        ensures
            final(self).wf(),
            final(self).same_setup(old(self)),
            concludes(
                old(self).entries(),
                old(self).cap(),
                entries_of(hits@),
                document_verdict(old(self).reference(), document(*doc)),
                final(self).entries(),
                outcome,
            ),
            outcome is Ok && all_consistent(old(self).reference(), entries_of(hits@))
                ==> consistent_map(old(self).reference(), outcome->Ok_0@),
    {
        match read_error(doc) {
            Some(message) => {
                return Err(IpError::new(IpErrorKind::IpRequestError, Some(message.as_str())));
            },
            None => {},
        }
        let records = match read_batch(doc) {
            Some(records) => records,
            None => {
                return Err(IpError::new(IpErrorKind::ParseError, None));
            },
        };
        let ghost batch = entries_of(records@);
        let mut i: usize = 0;
        while i < records.len()
            invariant
                0 <= i <= records.len(),
                batch == entries_of(records@),
                *self == *old(self),
                self.wf(),
                wire_error(document(*doc)) is None,
                wire_batch(document(*doc)) == Some(batch),
                forall|k: int|
                    0 <= k < i ==> (#[trigger] batch[k]).1.country.len() == 0
                        || covers(self.reference(), batch[k].1.country),
            decreases records.len() - i,
        {
            if !self.reference.can_enrich(&records[i].1) {
                assert(batch[i as int].1 == records@[i as int].1@);
                return Err(IpError::new(IpErrorKind::ReferenceDataError, None));
            }
            assert(batch[i as int].1 == records@[i as int].1@);
            i = i + 1;
        }
        proof {
            assert forall|k: int| 0 <= k < batch.len() implies bare(
                (#[trigger] batch[k]).1,
            ) by {
                let members = document(*doc)->Object_0;
                assert(wire_record(members[k].1) is Some);
            }
        }
        Ok(self.merge(hits, records))
    }

    /// Ends a lookup with the reply of the service. Status 429 fails it as
    /// the exhausted quota, any other status that is not one of success as a
    /// refused request; the body of a successful reply must be JSON, and then
    /// counts as `resolve_document` says. A failure leaves the cache untouched.
    pub fn resolve(&mut self, hits: Vec<(String, IpDetails)>, reply: &Reply) -> (outcome: Result<
        DetailsMap,
        IpError,
    >)
        requires
            old(self).wf(),
        ensures
            final(self).wf(),
            final(self).same_setup(old(self)),
            concludes(
                old(self).entries(),
                old(self).cap(),
                entries_of(hits@),
                reply_verdict(old(self).reference(), reply.status, reply.body@),
                final(self).entries(),
                outcome,
            ),
            outcome is Ok && all_consistent(old(self).reference(), entries_of(hits@))
                ==> consistent_map(old(self).reference(), outcome->Ok_0@),
    {
        if reply.status == TOO_MANY_REQUESTS {
            return Err(IpError::new(IpErrorKind::RateLimitExceededError, None));
        }
        if reply.status < 200 || reply.status > 299 {
            return Err(IpError::from_status(reply.status));
        }
        match parse(reply.body.as_str()) {
            Ok(doc) => self.resolve_document(hits, &doc),
            Err(_) => Err(IpError::new(IpErrorKind::ParseError, None)),
        }
    }

    /// Lookup a list of one or more IP addresses.
    ///
    /// The addresses that the cache holds are answered from it. For the
    /// others, if there are any, `exchange` is called once, with the request
    /// to send; what it returns is the reply of the service, or the failure of
    /// the exchange. Where the cache holds every address, `exchange` is not
    /// called, and the lookup succeeds with the hits.
    ///
    /// On success every address that the cache held is returned with the
    /// record that the cache held, and every record returned agrees with the
    /// reference tables. A failure changes nothing in the cache but the order
    /// of its entries.
    pub fn lookup<F>(&mut self, ips: &[&str], exchange: F) -> (outcome: Result<DetailsMap, IpError>)
        where F: FnOnce(BatchRequest) -> Result<Reply, IpError>
        requires
            old(self).wf(),
            ({
                let misses = misses_among(old(self).entries(), addresses(ips@));
                misses.len() > 0 ==> forall|request: BatchRequest|
                    old(self).asks(request, misses) ==> exchange.requires((request,))
            }),
        ensures
            final(self).wf(),
            final(self).same_setup(old(self)),
            ({
                let asked = addresses(ips@);
                let before = old(self).entries();
                let hits = hits_among(before, asked);
                let misses = misses_among(before, asked);
                let probes = probed(before, asked);
                let after = final(self).entries();
                &&& misses.len() == 0 ==> {
                    &&& concludes(probes, old(self).cap(), hits, Ok(Seq::empty()), after, outcome)
                    &&& outcome->Ok_0@.dom() == asked.to_set()
                }
                &&& misses.len() > 0 ==> exists|
                    request: BatchRequest,
                    answer: Result<Reply, IpError>,
                |
                    {
                        &&& old(self).asks(request, misses)
                        &&& exchange.ensures((request,), answer)
                        &&& concludes_exchange(
                            old(self).reference(),
                            probes,
                            old(self).cap(),
                            hits,
                            answer,
                            after,
                            outcome,
                        )
                    }
                &&& outcome is Ok ==> consistent_map(old(self).reference(), outcome->Ok_0@)
                &&& outcome is Ok ==> forall|address: Text|
                    asked.contains(address) && holds(before, address)
                        ==> outcome->Ok_0@.contains_key(address)
                        && #[trigger] outcome->Ok_0@[address] == record_of(before, address)
                &&& outcome is Err ==> after == probes && as_map(after) == as_map(before)
            }),
    {
        let ghost asked = addresses(ips@);
        let ghost before = self.entries();
        proof {
            law_probing_keeps_the_cache(before, asked);
        }
        let Partition { hits, misses } = self.partition(ips);
        if misses.len() == 0 {
            let records: Vec<(String, IpDetails)> = Vec::new();
            proof {
                assert(entries_of(records@) =~= Seq::<Entry>::empty());
                assert(enriched_batch(self.reference(), entries_of(records@)) =~= Seq::<
                    Entry,
                >::empty());
                assert(misses_among(before, asked) =~= Seq::<Text>::empty());
                law_result_addresses(before, asked, Seq::empty());
                let result = merged(Seq::empty(), hits_among(before, asked));
                assert forall|address: Text|
                    asked.contains(address) && holds(before, address) implies result.contains_key(
                    address,
                ) && #[trigger] result[address] == record_of(before, address) by {
                    law_hits_are_returned_unchanged(before, asked, Seq::empty(), address);
                }
            }
            return Ok(self.merge(hits, records));
        }
        assert(misses_among(before, asked).len() == misses@.len());
        let request = self.request(misses);
        assert(old(self).asks(request, misses_among(before, asked)));
        let answer = exchange(request);
        let ghost given = answer;
        let outcome = match answer {
            Ok(reply) => self.resolve(hits, &reply),
            Err(error) => Err(error),
        };
        proof {
            assert(concludes_exchange(
                self.reference(),
                probed(before, asked),
                self.cap(),
                hits_among(before, asked),
                given,
                self.entries(),
                outcome,
            ));
            if outcome is Ok {
                let batch = reply_verdict(
                    self.reference(),
                    given->Ok_0.status,
                    given->Ok_0.body@,
                )->Ok_0;
                let result = outcome->Ok_0@;
                assert forall|address: Text|
                    asked.contains(address) && holds(before, address) implies result.contains_key(
                    address,
                ) && #[trigger] result[address] == record_of(before, address) by {
                    law_hits_are_returned_unchanged(before, asked, batch, address);
                }
            }
        }
        outcome
    }
}

} // verus!

//! The mapping from address to record that a lookup returns.

use crate::details::{IpDetails, IpDetailsView, Text};
use vstd::prelude::*;

verus! {

/// A finite mapping from address to record. No address occurs twice.
#[derive(Debug)]
pub struct DetailsMap {
    entries: Vec<(String, IpDetails)>,
}

/// The addresses of a sequence of entries.
pub open spec fn addresses_of(entries: Seq<(String, IpDetails)>) -> Seq<Text> {
    Seq::new(entries.len(), |i: int| entries[i].0@)
}

/// The mapping that a sequence of entries stands for.
pub open spec fn map_of(entries: Seq<(String, IpDetails)>) -> Map<Text, IpDetailsView> {
    Map::new(
        |address: Text| addresses_of(entries).contains(address),
        |address: Text| entries[addresses_of(entries).index_of(address)].1@,
    )
}

/// Where no address occurs twice, each entry is a pair of the mapping.
pub proof fn lemma_map_of_entry(entries: Seq<(String, IpDetails)>, i: int)
    requires
        addresses_of(entries).no_duplicates(),
        0 <= i < entries.len(),
    ensures
        addresses_of(entries).contains(entries[i].0@),
        addresses_of(entries).index_of(entries[i].0@) == i,
        map_of(entries).contains_pair(entries[i].0@, entries[i].1@),
{
    let addresses = addresses_of(entries);
    assert(addresses[i] == entries[i].0@);
    let k = addresses.index_of(entries[i].0@);
    assert(addresses[k] == addresses[i]);
}

/// An entry for a new address, put at the end, adds one pair to the mapping.
pub proof fn lemma_map_of_push(entries: Seq<(String, IpDetails)>, entry: (String, IpDetails))
    requires
        addresses_of(entries).no_duplicates(),
        !addresses_of(entries).contains(entry.0@),
    ensures
        addresses_of(entries.push(entry)).no_duplicates(),
        map_of(entries.push(entry)) == map_of(entries).insert(entry.0@, entry.1@),
{
    let after = entries.push(entry);
    let n = entries.len() as int;
    assert(addresses_of(after) =~= addresses_of(entries).push(entry.0@));
    assert(addresses_of(after).no_duplicates());
    lemma_map_of_entry(after, n);
    assert forall|other: Text| addresses_of(entries).contains(other) implies addresses_of(
        after,
    ).contains(other) && map_of(after)[other] == map_of(entries)[other] by {
        let k = addresses_of(entries).index_of(other);
        assert(addresses_of(entries)[k] == other);
        lemma_map_of_entry(after, k);
        assert(after[k] == entries[k]);
    }
    assert forall|other: Text| addresses_of(after).contains(other) implies other == entry.0@
        || addresses_of(entries).contains(other) by {
        let k = addresses_of(after).index_of(other);
        assert(addresses_of(after)[k] == other);
        if k < n {
            assert(addresses_of(entries)[k] == other);
        }
    }
    assert(map_of(after) =~= map_of(entries).insert(entry.0@, entry.1@));
}

/// An entry put in the place of the one with the same address changes one
/// pair of the mapping.
pub proof fn lemma_map_of_update(
    entries: Seq<(String, IpDetails)>,
    i: int,
    entry: (String, IpDetails),
)
    requires
        addresses_of(entries).no_duplicates(),
        0 <= i < entries.len(),
        entries[i].0@ == entry.0@,
    ensures
        addresses_of(entries.update(i, entry)).no_duplicates(),
        map_of(entries.update(i, entry)) == map_of(entries).insert(entry.0@, entry.1@),
{
    let after = entries.update(i, entry);
    assert(addresses_of(after) =~= addresses_of(entries));
    lemma_map_of_entry(after, i);
    assert forall|other: Text| addresses_of(entries).contains(other) && other != entry.0@ implies
        map_of(after)[other] == map_of(entries)[other] by {
        let k = addresses_of(entries).index_of(other);
        assert(addresses_of(entries)[k] == other);
        assert(after[k] == entries[k]);
    }
    assert(map_of(after) =~= map_of(entries).insert(entry.0@, entry.1@));
}

impl View for DetailsMap {
    type V = Map<Text, IpDetailsView>;

    closed spec fn view(&self) -> Map<Text, IpDetailsView> {
        map_of(self.entries@)
    }
}

impl DetailsMap {
    #[verifier::type_invariant]
    spec fn well_formed(&self) -> bool {
        addresses_of(self.entries@).no_duplicates()
    }

    /// The empty mapping.
    pub fn new() -> (map: DetailsMap)
        ensures
            map@ == Map::<Text, IpDetailsView>::empty(),
    {
        let map = DetailsMap { entries: Vec::new() };
        assert(map@ =~= Map::<Text, IpDetailsView>::empty());
        map
    }

    /// The place of an address among the entries.
    fn position(&self, address: &String) -> (found: Option<usize>)
        ensures
            match found {
                Some(i) => i < self.entries@.len() && self.entries@[i as int].0@ == address@,
                None => !addresses_of(self.entries@).contains(address@),
            },
    {
        let mut i: usize = 0;
        while i < self.entries.len()
            invariant
                0 <= i <= self.entries.len(),
                forall|k: int| 0 <= k < i ==> addresses_of(self.entries@)[k] != address@,
            decreases self.entries.len() - i,
        {
            if self.entries[i].0 == *address {
                return Some(i);
            }
            i = i + 1;
        }
        None
    }

    /// The number of addresses.
    pub fn len(&self) -> (count: usize)
        ensures
            self@.dom().finite(),
            count == self@.dom().len(),
    {
        proof {
            use_type_invariant(self);
            let addresses = addresses_of(self.entries@);
            addresses.unique_seq_to_set();
            assert(self@.dom() =~= addresses.to_set());
        }
        self.entries.len()
    }

    /// Is there no address at all?
    pub fn is_empty(&self) -> (empty: bool)
        ensures
            empty == (self@.dom() =~= Set::<Text>::empty()),
    {
        proof {
            if self.entries@.len() > 0 {
                assert(addresses_of(self.entries@)[0] == self.entries@[0].0@);
                assert(self@.dom().contains(self.entries@[0].0@));
            }
        }
        self.entries.len() == 0
    }

    /// Has the address a record?
    pub fn contains_key(&self, address: &str) -> (found: bool)
        ensures
            found == self@.contains_key(address@),
    {
        let wanted = address.to_owned();
        match self.position(&wanted) {
            Some(i) => {
                proof {
                    use_type_invariant(self);
                    lemma_map_of_entry(self.entries@, i as int);
                }
                true
            },
            None => false,
        }
    }

    /// The record of an address.
    pub fn get(&self, address: &str) -> (found: Option<&IpDetails>)
        ensures
            match found {
                Some(record) => self@.contains_key(address@) && record@ == self@[address@],
                None => !self@.contains_key(address@),
            },
    {
        let wanted = address.to_owned();
        match self.position(&wanted) {
            Some(i) => {
                proof {
                    use_type_invariant(self);
                    lemma_map_of_entry(self.entries@, i as int);
                }
                Some(&self.entries[i].1)
            },
            None => None,
        }
    }

    /// Gives the address this record, in place of the one it had, if any.
    pub fn insert(&mut self, address: String, record: IpDetails)
        ensures
            final(self)@ == old(self)@.insert(address@, record@),
    {
        proof {
            use_type_invariant(&*self);
        }
        let ghost before = self.entries@;
        let place = self.position(&address);
        let mut entries: Vec<(String, IpDetails)> = Vec::new();
        std::mem::swap(&mut self.entries, &mut entries);
        match place {
            Some(i) => {
                proof {
                    lemma_map_of_update(before, i as int, (address, record));
                }
                entries.set(i, (address, record));
            },
            None => {
                proof {
                    lemma_map_of_push(before, (address, record));
                }
                entries.push((address, record));
            },
        }
        std::mem::swap(&mut self.entries, &mut entries);
    }

    /// The entries themselves, each address once, in no particular order.
    pub fn into_entries(self) -> (entries: Vec<(String, IpDetails)>)
        ensures
            addresses_of(entries@).no_duplicates(),
            map_of(entries@) == self@,
    {
        proof {
            use_type_invariant(&self);
        }
        self.entries
    }

    /// The entries, each address once, in no particular order.
    pub fn entries(&self) -> (entries: &Vec<(String, IpDetails)>)
        ensures
            addresses_of(entries@).no_duplicates(),
            map_of(entries@) == self@,
    {
        proof {
            use_type_invariant(self);
        }
        &self.entries
    }
}

} // verus!

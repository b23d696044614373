//! The registry: a mapping from key to stored record, and its operations.

use std::collections::HashMap;
use vstd::prelude::*;
use vstd::std_specs::hash::spec_hash_map_iter;
use vstd::std_specs::iter::IteratorSpec;
use crate::errors::{conflict_message, not_found_message, AppError, AppErrorView};
use crate::expiry::{is_live, Entry, EntryView};
use crate::models::{Domain, DomainStatus};
use crate::registry::{
    accepts, as_ints, expired_keys, inserted, is_active, lists_active, record_under, status_of,
    views_of,
};
use crate::time::Timestamp;

verus! {

broadcast use vstd::std_specs::hash::group_hash_axioms;

/// Whether `key` stands in `keys` before position `upto`.
spec fn among(keys: Seq<i32>, upto: int, key: i32) -> bool {
    exists|j: int| 0 <= j < upto && #[trigger] keys[j] == key
}

/// The keys of a sequence of records, in the same order.
spec fn ids_of(records: Seq<Domain>) -> Seq<i32> {
    Seq::new(records.len(), |j: int| records[j].id)
}

/// Whether the walk `pairs` visits `key` before position `upto`.
spec fn walked(pairs: Seq<(&i32, &Entry)>, upto: int, key: i32) -> bool {
    exists|i: int| 0 <= i < upto && *(#[trigger] pairs[i]).0 == key
}

/// Whether `pairs` is a walk over `stored`: it visits every key, none twice,
/// and each together with its entry.
spec fn is_walk_of(pairs: Seq<(&i32, &Entry)>, stored: Map<i32, Entry>) -> bool {
    &&& forall|i: int|
        0 <= i < pairs.len() ==> stored.contains_key(*(#[trigger] pairs[i]).0)
            && stored[*pairs[i].0] == *pairs[i].1
    &&& forall|i: int, j: int|
        0 <= i < j < pairs.len() ==> *(#[trigger] pairs[i]).0 != *(#[trigger] pairs[j]).0
    &&& forall|key: i32| stored.contains_key(key) ==> walked(pairs, pairs.len() as int, key)
}

/// The pairs that an iterator over a map hands out are a walk over the map.
proof fn lemma_iter_is_walk(stored: &HashMap<i32, Entry>)
    requires
        spec_hash_map_iter(stored).remaining().no_duplicates(),
    ensures
        is_walk_of(spec_hash_map_iter(stored).remaining(), stored@),
{
    let pairs = spec_hash_map_iter(stored).remaining();
    assert forall|i: int, j: int| 0 <= i < j < pairs.len() implies *(#[trigger] pairs[i]).0 != *(
    #[trigger] pairs[j]).0 by {
        assert(stored@[*pairs[i].0] == *pairs[i].1 && stored@[*pairs[j].0] == *pairs[j].1);
        assert(pairs[i] != pairs[j]);
    }
    assert forall|key: i32| stored@.contains_key(key) implies walked(
        pairs,
        pairs.len() as int,
        key,
    ) by {
        assert(pairs.contains((&key, &stored@[key])));
        let i = choose|i: int| 0 <= i < pairs.len() && pairs[i] == (&key, &stored@[key]);
        assert(*pairs[i].0 == key);
    }
}

/// The registry's state: the stored entries, each under its record's key.
#[derive(Debug)]
pub struct AppState {
    domains: HashMap<i32, Entry>,
}

impl View for AppState {
    type V = Map<int, EntryView>;

    closed spec fn view(&self) -> Map<int, EntryView> {
        Map::new(
            |key: int| i32::MIN <= key <= i32::MAX && self.domains@.contains_key(key as i32),
            |key: int| self.domains@[key as i32]@,
        )
    }
}

impl AppState {
    /// A registry that holds nothing.
    pub fn new() -> (state: AppState)
        ensures
            state@ == Map::<int, EntryView>::empty(),
    {
        let state = AppState { domains: HashMap::new() };
        assert(state@ =~= Map::<int, EntryView>::empty());
        state
    }

    /// Stores `record` under its key, with `now` as the moment of insertion,
    /// unless the key is taken. A key is taken while the mapping holds it,
    /// whether or not its record is still live.
    pub fn insert(&mut self, record: Domain, now: Timestamp) -> (result: Result<Domain, AppError>)
        ensures
            match result {
                Ok(stored) => accepts(old(self)@, record@) && stored == record && final(self)@
                    == inserted(old(self)@, record@, now@),
                Err(error) => !accepts(old(self)@, record@) && final(self)@ == old(self)@
                    && error@ == AppErrorView::Conflict(conflict_message(record@.id)),
            },
    {
        if self.domains.contains_key(&record.id) {
            return Err(AppError::conflict(record.id));
        }
        let entry = Entry {
            name: record.name.clone(),
            duration: record.duration,
            inserted_at: now,
        };
        self.domains.insert(record.id, entry);
        assert(self@ =~= inserted(old(self)@, record@, now@));
        Ok(record)
    }

    /// The record under `key` and the whole seconds it has left at `now`. A key
    /// whose record has expired is answered like a key that is absent.
    pub fn get_status(&self, key: i32, now: Timestamp) -> (result: Result<DomainStatus, AppError>)
        ensures
            match result {
                Ok(status) => status_of(self@, key as int, now@) == Some(status@),
                Err(error) => status_of(self@, key as int, now@) is None && error@
                    == AppErrorView::NotFound(not_found_message(key as int)),
            },
    {
        match self.domains.get(&key) {
            Some(entry) => {
                if entry.is_live(now) {
                    Ok(
                        DomainStatus {
                            id: key,
                            name: entry.name.clone(),
                            duration: entry.duration,
                            remaining_seconds: entry.remaining_seconds(now),
                        },
                    )
                } else {
                    Err(AppError::not_found(key))
                }
            },
            None => Err(AppError::not_found(key)),
        }
    }

    /// The records that are live at `now`, in no particular order. The mapping
    /// is left as it is: a record that has expired is passed over, not removed.
    pub fn list_active(&self, now: Timestamp) -> (records: Vec<Domain>)
        ensures
            lists_active(views_of(records@), self@, now@),
    {
        let mut records: Vec<Domain> = Vec::new();
        let ghost pairs = spec_hash_map_iter(&self.domains).remaining();
        for pair in it: self.domains.iter()
            invariant
                it.seq() == pairs,
                pairs == spec_hash_map_iter(&self.domains).remaining(),
                pairs.no_duplicates(),
                forall|j: int|
                    0 <= j < records.len() ==> walked(
                        pairs,
                        it.index(),
                        (#[trigger] records[j]).id,
                    ) && is_live(self.domains@[records[j].id]@, now@) && records[j]@
                        == record_under(records[j].id as int, self.domains@[records[j].id]@),
                forall|i: int|
                    0 <= i < it.index() && is_live((#[trigger] pairs[i]).1@, now@) ==> among(
                        ids_of(records@),
                        records.len() as int,
                        *pairs[i].0,
                    ),
                forall|i: int, j: int|
                    0 <= i < j < records.len() ==> (#[trigger] records[i]).id != (
                    #[trigger] records[j]).id,
        {
            let (key, entry) = pair;
            let ghost before = records@;
            proof {
                lemma_iter_is_walk(&self.domains);
            }
            assert(pairs[it.index()] == pair);
            if entry.is_live(now) {
                records.push(
                    Domain { id: *key, name: entry.name.clone(), duration: entry.duration },
                );
            }
            assert forall|j: int| 0 <= j < records.len() implies walked(
                pairs,
                it.index() + 1,
                (#[trigger] records[j]).id,
            ) by {
                if j < before.len() {
                    let i = choose|i: int|
                        0 <= i < it.index() && *(#[trigger] pairs[i]).0 == before[j].id;
                    assert(*pairs[i].0 == records[j].id);
                } else {
                    assert(*pairs[it.index()].0 == records[j].id);
                }
            }
            assert forall|i: int|
                0 <= i < it.index() + 1 && is_live((#[trigger] pairs[i]).1@, now@) implies among(
                ids_of(records@),
                records.len() as int,
                *pairs[i].0,
            ) by {
                if i < it.index() {
                    let j = choose|j: int|
                        0 <= j < before.len() && #[trigger] ids_of(before)[j] == *pairs[i].0;
                    assert(ids_of(records@)[j] == *pairs[i].0);
                } else {
                    assert(ids_of(records@)[before.len() as int] == *key);
                }
            }
        }
        proof {
            lemma_iter_is_walk(&self.domains);
            let listing = views_of(records@);
            assert forall|key: int| #[trigger] is_active(self@, key, now@) implies exists|i: int|
                0 <= i < listing.len() && (#[trigger] listing[i]).id == key by {
                let i = choose|i: int| 0 <= i < pairs.len() && *(#[trigger] pairs[i]).0 == key;
                let j = choose|j: int|
                    0 <= j < records.len() && #[trigger] ids_of(records@)[j] == *pairs[i].0;
                assert(listing[j].id == key);
            }
            assert forall|i: int| 0 <= i < listing.len() implies is_active(
                self@,
                (#[trigger] listing[i]).id,
                now@,
            ) && listing[i] == record_under(listing[i].id, self@[listing[i].id]) by {
                assert(is_live(self.domains@[records[i].id]@, now@));
            }
        }
        records
    }

    /// The keys of the entries that have expired at `now`, each once, in no
    /// particular order.
    pub(crate) fn expired(&self, now: Timestamp) -> (keys: Vec<i32>)
        ensures
            as_ints(keys@).no_duplicates(),
            as_ints(keys@).to_set() == expired_keys(self@, now@),
    {
        let mut keys: Vec<i32> = Vec::new();
        let ghost pairs = spec_hash_map_iter(&self.domains).remaining();
        for pair in it: self.domains.iter()
            invariant
                it.seq() == pairs,
                pairs == spec_hash_map_iter(&self.domains).remaining(),
                pairs.no_duplicates(),
                keys@.no_duplicates(),
                forall|j: int|
                    0 <= j < keys.len() ==> walked(pairs, it.index(), #[trigger] keys[j])
                        && !is_live(self.domains@[keys[j]]@, now@),
                forall|i: int|
                    0 <= i < it.index() && !is_live((#[trigger] pairs[i]).1@, now@) ==> among(
                        keys@,
                        keys.len() as int,
                        *pairs[i].0,
                    ),
        {
            let (key, entry) = pair;
            let ghost before = keys@;
            proof {
                lemma_iter_is_walk(&self.domains);
            }
            assert(pairs[it.index()] == pair);
            if !entry.is_live(now) {
                keys.push(*key);
            }
            assert forall|j: int| 0 <= j < keys.len() implies walked(
                pairs,
                it.index() + 1,
                #[trigger] keys[j],
            ) by {
                if j < before.len() {
                    let i = choose|i: int|
                        0 <= i < it.index() && *(#[trigger] pairs[i]).0 == before[j];
                    assert(*pairs[i].0 == keys[j]);
                }
            }
            assert forall|i: int|
                0 <= i < it.index() + 1 && !is_live((#[trigger] pairs[i]).1@, now@) implies among(
                keys@,
                keys.len() as int,
                *pairs[i].0,
            ) by {
                if i < it.index() {
                    let j = choose|j: int|
                        0 <= j < before.len() && #[trigger] before[j] == *pairs[i].0;
                    assert(keys@[j] == *pairs[i].0);
                } else {
                    assert(keys@[before.len() as int] == *key);
                }
            }
        }
        proof {
            lemma_iter_is_walk(&self.domains);
            let ints = as_ints(keys@);
            assert forall|key: int|
                expired_keys(self@, now@).contains(key) implies ints.to_set().contains(key) by {
                let i = choose|i: int|
                    0 <= i < pairs.len() && *(#[trigger] pairs[i]).0 == key as i32;
                assert(!is_live(pairs[i].1@, now@));
                let j = choose|j: int| 0 <= j < keys.len() && #[trigger] keys@[j] == key as i32;
                assert(ints[j] == key);
            }
            assert forall|key: int| ints.to_set().contains(key) implies expired_keys(
                self@,
                now@,
            ).contains(key) by {
                let j = choose|j: int| 0 <= j < ints.len() && ints[j] == key;
                assert(self.domains@.contains_key(keys[j]));
            }
            assert(ints.to_set() =~= expired_keys(self@, now@));
        }
        keys
    }

    /// Removes the entry under `key`, if there is one.
    pub(crate) fn remove(&mut self, key: i32)
        ensures
            final(self)@ == old(self)@.remove(key as int),
    {
        self.domains.remove(&key);
        assert(self@ =~= old(self)@.remove(key as int));
    }

    /// The mapping holds as many entries as the map that stores them.
    proof fn lemma_same_size(&self)
        ensures
            self@.dom().finite(),
            self@.len() == self.domains@.len(),
    {
        let cast = |key: i32| key as int;
        assert(self.domains@.dom().map(cast) =~= self@.dom()) by {
            assert forall|key: int| self@.dom().contains(key) implies self.domains@.dom().map(
                cast,
            ).contains(key) by {
                assert(self.domains@.dom().contains(key as i32) && cast(key as i32) == key);
            }
        }
        vstd::set_lib::lemma_map_size(self.domains@.dom(), self@.dom(), cast);
    }

    /// The mapping holds finitely many entries.
    pub proof fn lemma_finite(&self)
        ensures
            self@.dom().finite(),
    {
        self.lemma_same_size();
    }

    /// The number of entries that the mapping holds, expired ones included.
    pub fn len(&self) -> (count: usize)
        ensures
            count as nat == self@.len(),
    {
        proof {
            self.lemma_same_size();
        }
        self.domains.len()
    }
}

} // verus!

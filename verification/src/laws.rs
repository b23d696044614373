//! What holds of the registry across its operations, whatever the state and
//! whatever the clock reads.

use vstd::prelude::*;
use crate::expiry::{is_live, lifetime_nanos, remaining_seconds, EntryView};
use crate::models::{DomainStatusView, DomainView};
use crate::registry::{
    accepts, entry_of, expired_keys, inserted, is_active, lists_active, record_under, status_of,
    swept,
};
use crate::time::NANOS_PER_SEC;

verus! {

/// An insert never changes an entry that the mapping already holds.
pub proof fn insert_leaves_stored_entries_alone(
    registry: Map<int, EntryView>,
    record: DomainView,
    now: nat,
    key: int,
)
    requires
        accepts(registry, record),
        registry.contains_key(key),
    ensures
        inserted(registry, record, now).contains_key(key),
        inserted(registry, record, now)[key] == registry[key],
{
}

/// After a sweep the mapping holds only entries that are live at the moment of
/// the sweep, each as it was stored; it holds every such entry.
pub proof fn sweep_leaves_exactly_the_live_entries(
    registry: Map<int, EntryView>,
    now: nat,
    key: int,
)
    ensures
        swept(registry, now).contains_key(key) <==> is_active(registry, key, now),
        swept(registry, now).contains_key(key) ==> swept(registry, now)[key] == registry[key],
{
}

/// A record with a positive duration that was stored under a free key is
/// visible at the moment of its insertion: a status query finds it, and every
/// listing of the live records holds it.
pub proof fn fresh_insert_is_visible(
    registry: Map<int, EntryView>,
    record: DomainView,
    now: nat,
    listing: Seq<DomainView>,
)
    requires
        accepts(registry, record),
        record.duration > 0,
        lists_active(listing, inserted(registry, record, now), now),
    ensures
        status_of(inserted(registry, record, now), record.id, now) is Some,
        listing.contains(record),
{
    let after = inserted(registry, record, now);
    assert(lifetime_nanos(record.duration) > 0) by (nonlinear_arith)
        requires
            record.duration > 0,
            lifetime_nanos(record.duration) == record.duration * NANOS_PER_SEC,
            NANOS_PER_SEC == 1_000_000_000,
    ;
    assert(is_active(after, record.id, now));
    let i = choose|i: int| 0 <= i < listing.len() && (#[trigger] listing[i]).id == record.id;
    assert(listing[i] == record);
}

/// Once a record is stored, no second record is taken under its key. Whether
/// an insert is accepted does not depend on the clock, so this holds at
/// whatever moment the second insert comes, and whether or not the stored
/// record has expired by then.
pub proof fn taken_key_is_refused(
    registry: Map<int, EntryView>,
    first: DomainView,
    inserted_at: nat,
    second: DomainView,
)
    requires
        second.id == first.id,
    ensures
        !accepts(inserted(registry, first, inserted_at), second),
{
}

/// A status query at the very moment of the insertion reports the record as
/// it was given and its whole duration as the seconds that remain.
pub proof fn status_at_insertion_reports_whole_duration(
    registry: Map<int, EntryView>,
    record: DomainView,
    now: nat,
)
    requires
        record.duration > 0,
    ensures
        status_of(inserted(registry, record, now), record.id, now) == Some(
            DomainStatusView {
                id: record.id,
                name: record.name,
                duration: record.duration,
                remaining_seconds: record.duration as nat,
            },
        ),
{
    let entry = entry_of(record, now);
    let lifetime = lifetime_nanos(record.duration) as int;
    assert(lifetime == record.duration * NANOS_PER_SEC);
    assert(lifetime > 0 && lifetime / (NANOS_PER_SEC as int) == record.duration)
        by (nonlinear_arith)
        requires
            record.duration > 0,
            lifetime == record.duration * NANOS_PER_SEC,
            NANOS_PER_SEC == 1_000_000_000,
    ;
    assert(remaining_seconds(entry, now) == record.duration as nat);
}

/// Once a record's lifetime has elapsed, readers no longer get it, even while
/// the mapping still holds its entry: a status query finds nothing, and no
/// listing of the live records holds the key.
pub proof fn expired_record_is_hidden(
    registry: Map<int, EntryView>,
    key: int,
    now: nat,
    listing: Seq<DomainView>,
)
    requires
        registry.contains_key(key),
        now >= registry[key].inserted_at + lifetime_nanos(registry[key].duration),
        lists_active(listing, registry, now),
    ensures
        status_of(registry, key, now) is None,
        forall|i: int| 0 <= i < listing.len() ==> (#[trigger] listing[i]).id != key,
{
}

/// A sweep changes nothing that a reader at the same or a later moment sees:
/// status queries answer as they would without it, and the same listings are
/// listings of the live records.
pub proof fn sweep_is_invisible_to_readers(
    registry: Map<int, EntryView>,
    swept_at: nat,
    now: nat,
    key: int,
    listing: Seq<DomainView>,
)
    requires
        swept_at <= now,
    ensures
        status_of(swept(registry, swept_at), key, now) == status_of(registry, key, now),
        lists_active(listing, swept(registry, swept_at), now) == lists_active(
            listing,
            registry,
            now,
        ),
{
    let after = swept(registry, swept_at);
    assert forall|k: int| is_active(after, k, now) == is_active(registry, k, now) by {
        if registry.contains_key(k) && is_live(registry[k], now) {
            assert(is_live(registry[k], swept_at));
            assert(!expired_keys(registry, swept_at).contains(k));
        }
    }
    assert forall|k: int| is_active(registry, k, now) implies after[k] == registry[k] by {
        assert(is_active(after, k, now));
    }
    if lists_active(listing, registry, now) {
        assert forall|i: int| 0 <= i < listing.len() implies is_active(
            after,
            (#[trigger] listing[i]).id,
            now,
        ) && listing[i] == record_under(listing[i].id, after[listing[i].id]) by {
            assert(is_active(registry, listing[i].id, now));
        }
        assert forall|k: int| #[trigger] is_active(after, k, now) implies exists|i: int|
            0 <= i < listing.len() && (#[trigger] listing[i]).id == k by {
            assert(is_active(registry, k, now));
        }
        assert(lists_active(listing, after, now));
    }
    if lists_active(listing, after, now) {
        assert forall|i: int| 0 <= i < listing.len() implies is_active(
            registry,
            (#[trigger] listing[i]).id,
            now,
        ) && listing[i] == record_under(listing[i].id, registry[listing[i].id]) by {
            assert(is_active(after, listing[i].id, now));
        }
        assert forall|k: int| #[trigger] is_active(registry, k, now) implies exists|i: int|
            0 <= i < listing.len() && (#[trigger] listing[i]).id == k by {
            assert(is_active(after, k, now));
        }
        assert(lists_active(listing, registry, now));
    }
}

/// A sweep at or after the end of a record's lifetime frees the record's key:
/// the next insert under that key is accepted, and it stores the new record
/// with the moment of the new insertion.
pub proof fn sweep_frees_expired_key(
    registry: Map<int, EntryView>,
    key: int,
    swept_at: nat,
    record: DomainView,
    now: nat,
)
    requires
        registry.contains_key(key),
        swept_at >= registry[key].inserted_at + lifetime_nanos(registry[key].duration),
        record.id == key,
    ensures
        accepts(swept(registry, swept_at), record),
        inserted(swept(registry, swept_at), record, now)[key] == entry_of(record, now),
{
    assert(expired_keys(registry, swept_at).contains(key));
}

/// The seconds that an entry has left never grow as the clock advances.
pub proof fn remaining_seconds_never_grow(entry: EntryView, earlier: nat, later: nat)
    requires
        earlier <= later,
    ensures
        remaining_seconds(entry, later) <= remaining_seconds(entry, earlier),
{
    let deadline = entry.inserted_at + lifetime_nanos(entry.duration);
    if deadline > later {
        assert((deadline - later) / (NANOS_PER_SEC as int) <= (deadline - earlier) / (
        NANOS_PER_SEC as int)) by (nonlinear_arith)
            requires
                0 < deadline - later <= deadline - earlier,
                NANOS_PER_SEC == 1_000_000_000,
        ;
    }
}

/// Of two status queries for one stored record, the later one never reports
/// more remaining seconds than the earlier one; and where the later one still
/// finds the record, so did the earlier one.
pub proof fn status_remaining_never_grows(
    registry: Map<int, EntryView>,
    key: int,
    earlier: nat,
    later: nat,
)
    requires
        earlier <= later,
        status_of(registry, key, later) is Some,
    ensures
        status_of(registry, key, earlier) is Some,
        status_of(registry, key, later)->0.remaining_seconds <= status_of(
            registry,
            key,
            earlier,
        )->0.remaining_seconds,
{
    remaining_seconds_never_grow(registry[key], earlier, later);
}

/// Two inserts under different free keys do not disturb one another: in
/// whichever order they are served, both are accepted and the mapping ends up
/// the same.
pub proof fn distinct_inserts_commute(
    registry: Map<int, EntryView>,
    first: DomainView,
    first_at: nat,
    second: DomainView,
    second_at: nat,
)
    requires
        accepts(registry, first),
        accepts(registry, second),
        first.id != second.id,
    ensures
        accepts(inserted(registry, first, first_at), second),
        accepts(inserted(registry, second, second_at), first),
        inserted(inserted(registry, first, first_at), second, second_at) == inserted(
            inserted(registry, second, second_at),
            first,
            first_at,
        ),
{
    assert(inserted(inserted(registry, first, first_at), second, second_at) =~= inserted(
        inserted(registry, second, second_at),
        first,
        first_at,
    ));
}

/// The registry after the inserts of `batch` have been served one after
/// another, each record with the moment of its insertion. An insert under a
/// taken key changes nothing.
pub open spec fn inserted_all(registry: Map<int, EntryView>, batch: Seq<(DomainView, nat)>) -> Map<
    int,
    EntryView,
>
    decreases batch.len(),
{
    if batch.len() == 0 {
        registry
    } else {
        let before = inserted_all(registry, batch.drop_last());
        if accepts(before, batch.last().0) {
            inserted(before, batch.last().0, batch.last().1)
        } else {
            before
        }
    }
}

/// Whether the records of `batch` have keys that are free in `registry` and
/// that differ from one another.
pub open spec fn distinct_free_keys(
    registry: Map<int, EntryView>,
    batch: Seq<(DomainView, nat)>,
) -> bool {
    &&& forall|i: int| 0 <= i < batch.len() ==> accepts(registry, (#[trigger] batch[i]).0)
    &&& forall|i: int, j: int|
        0 <= i < j < batch.len() ==> (#[trigger] batch[i]).0.id != (#[trigger] batch[j]).0.id
}

/// Inserts under free keys that differ from one another lose nothing,
/// whatever their number: each is accepted when its turn comes, each record
/// ends up stored as it was given, what the mapping held before stays, and
/// nothing else appears.
pub proof fn distinct_inserts_all_land(
    registry: Map<int, EntryView>,
    batch: Seq<(DomainView, nat)>,
)
    requires
        distinct_free_keys(registry, batch),
    ensures
        forall|i: int|
            0 <= i < batch.len() ==> accepts(
                inserted_all(registry, #[trigger] batch.take(i)),
                batch[i].0,
            ),
        forall|i: int|
            0 <= i < batch.len() ==> inserted_all(registry, batch).contains_key(
                (#[trigger] batch[i]).0.id,
            ) && inserted_all(registry, batch)[batch[i].0.id] == entry_of(
                batch[i].0,
                batch[i].1,
            ),
        forall|key: int| #[trigger]
            registry.contains_key(key) ==> inserted_all(registry, batch).contains_key(key)
                && inserted_all(registry, batch)[key] == registry[key],
        forall|key: int| #[trigger]
            inserted_all(registry, batch).contains_key(key) ==> registry.contains_key(key) || (
            exists|i: int| 0 <= i < batch.len() && (#[trigger] batch[i]).0.id == key),
    decreases batch.len(),
{
    if batch.len() > 0 {
        let rest = batch.drop_last();
        let last = batch.len() - 1;
        assert forall|i: int| 0 <= i < rest.len() implies rest[i] == batch[i] by {}
        distinct_inserts_all_land(registry, rest);
        let before = inserted_all(registry, rest);
        assert(accepts(before, batch.last().0)) by {
            if before.contains_key(batch.last().0.id) {
                assert(accepts(registry, batch[last].0));
                let i = choose|i: int|
                    0 <= i < rest.len() && (#[trigger] rest[i]).0.id == batch.last().0.id;
                assert(batch[i].0.id != batch[last].0.id);
            }
        }
        assert forall|i: int| 0 <= i < batch.len() implies accepts(
            inserted_all(registry, #[trigger] batch.take(i)),
            batch[i].0,
        ) by {
            if i < last {
                assert(batch.take(i) =~= rest.take(i));
            } else {
                assert(batch.take(i) =~= rest);
            }
        }
        assert forall|i: int| 0 <= i < batch.len() implies inserted_all(
            registry,
            batch,
        ).contains_key((#[trigger] batch[i]).0.id) && inserted_all(registry, batch)[batch[i].0.id]
            == entry_of(batch[i].0, batch[i].1) by {
            if i < last {
                assert(rest[i] == batch[i]);
                assert(batch[i].0.id != batch[last].0.id);
            }
        }
        assert forall|key: int| #[trigger]
            inserted_all(registry, batch).contains_key(key) implies registry.contains_key(key) || (
        exists|i: int| 0 <= i < batch.len() && (#[trigger] batch[i]).0.id == key) by {
            if key == batch[last].0.id {
            } else if !registry.contains_key(key) {
                let i = choose|i: int| 0 <= i < rest.len() && (#[trigger] rest[i]).0.id == key;
                assert(batch[i].0.id == key);
            }
        }
    }
}

/// The order in which inserts under free, distinct keys are served does not
/// matter: served in any other order, the same requests leave the same
/// mapping.
pub proof fn serving_order_does_not_matter(
    registry: Map<int, EntryView>,
    batch: Seq<(DomainView, nat)>,
    reordered: Seq<(DomainView, nat)>,
)
    requires
        distinct_free_keys(registry, batch),
        reordered.to_multiset() == batch.to_multiset(),
    ensures
        distinct_free_keys(registry, reordered),
        inserted_all(registry, reordered) == inserted_all(registry, batch),
{
    broadcast use vstd::seq_lib::group_to_multiset_ensures;

    assert(batch.no_duplicates());
    batch.lemma_multiset_has_no_duplicates();
    reordered.lemma_multiset_has_no_duplicates_conv();
    assert forall|j: int| 0 <= j < reordered.len() implies batch.contains(
        #[trigger] reordered[j],
    ) by {
        assert(reordered.contains(reordered[j]));
        assert(reordered.to_multiset().count(reordered[j]) > 0);
    }
    assert forall|i: int| 0 <= i < batch.len() implies reordered.contains(#[trigger] batch[i]) by {
        assert(batch.contains(batch[i]));
        assert(batch.to_multiset().count(batch[i]) > 0);
    }
    assert forall|i: int, j: int| 0 <= i < j < reordered.len() implies (
    #[trigger] reordered[i]).0.id != (#[trigger] reordered[j]).0.id by {
        let a = choose|a: int| 0 <= a < batch.len() && batch[a] == reordered[i];
        let b = choose|b: int| 0 <= b < batch.len() && batch[b] == reordered[j];
        assert(a != b);
    }
    assert forall|j: int| 0 <= j < reordered.len() implies accepts(
        registry,
        (#[trigger] reordered[j]).0,
    ) by {
        let a = choose|a: int| 0 <= a < batch.len() && batch[a] == reordered[j];
    }
    distinct_inserts_all_land(registry, batch);
    distinct_inserts_all_land(registry, reordered);
    let one = inserted_all(registry, batch);
    let other = inserted_all(registry, reordered);
    assert forall|key: int| one.contains_key(key) implies other.contains_key(key) && other[key]
        == one[key] by {
        if !registry.contains_key(key) {
            let i = choose|i: int| 0 <= i < batch.len() && (#[trigger] batch[i]).0.id == key;
            let j = choose|j: int| 0 <= j < reordered.len() && reordered[j] == batch[i];
            assert(reordered[j].0.id == key);
        }
    }
    assert forall|key: int| other.contains_key(key) implies one.contains_key(key) by {
        if !registry.contains_key(key) {
            let j = choose|j: int|
                0 <= j < reordered.len() && (#[trigger] reordered[j]).0.id == key;
            let i = choose|i: int| 0 <= i < batch.len() && batch[i] == reordered[j];
            assert(batch[i].0.id == key);
        }
    }
    assert(one =~= other);
}

} // verus!

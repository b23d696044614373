//! The registry as a mathematical object: a mapping from key to stored entry,
//! and what each operation makes of it.

use vstd::prelude::*;
use crate::expiry::{is_live, remaining_seconds, EntryView};
use crate::models::{Domain, DomainStatusView, DomainView};

verus! {

/// The entry that stores `record` when it is inserted at `now`.
pub open spec fn entry_of(record: DomainView, now: nat) -> EntryView {
    EntryView { name: record.name, duration: record.duration, inserted_at: now }
}

/// The record that `entry` stores under `key`.
pub open spec fn record_under(key: int, entry: EntryView) -> DomainView {
    DomainView { id: key, name: entry.name, duration: entry.duration }
}

/// Whether `key` holds a record that is live at `now`.
pub open spec fn is_active(registry: Map<int, EntryView>, key: int, now: nat) -> bool {
    registry.contains_key(key) && is_live(registry[key], now)
}

/// Whether the registry takes `record`: whether its key is free. A key is
/// taken while the mapping holds it, whether or not its record is still live.
pub open spec fn accepts(registry: Map<int, EntryView>, record: DomainView) -> bool {
    !registry.contains_key(record.id)
}

/// The registry after `record` has been stored at `now`.
pub open spec fn inserted(registry: Map<int, EntryView>, record: DomainView, now: nat) -> Map<
    int,
    EntryView,
> {
    registry.insert(record.id, entry_of(record, now))
}

/// What a reader learns about `key` at `now`: the record and the seconds it has
/// left if it is live, nothing if the key is absent or its record has expired.
pub open spec fn status_of(registry: Map<int, EntryView>, key: int, now: nat) -> Option<
    DomainStatusView,
> {
    if is_active(registry, key, now) {
        Some(
            DomainStatusView {
                id: key,
                name: registry[key].name,
                duration: registry[key].duration,
                remaining_seconds: remaining_seconds(registry[key], now),
            },
        )
    } else {
        None
    }
}

/// The views of a sequence of records, in the same order.
pub open spec fn views_of(records: Seq<Domain>) -> Seq<DomainView> {
    Seq::new(records.len(), |i: int| records[i]@)
}

/// Whether `listing` is a listing of the records that are live at `now`: it
/// holds only such records, each as it is stored, no key twice, and none is
/// missing. The order is left open.
pub open spec fn lists_active(
    listing: Seq<DomainView>,
    registry: Map<int, EntryView>,
    now: nat,
) -> bool {
    &&& forall|i: int|
        0 <= i < listing.len() ==> is_active(registry, (#[trigger] listing[i]).id, now)
            && listing[i] == record_under(listing[i].id, registry[listing[i].id])
    &&& forall|i: int, j: int|
        0 <= i < j < listing.len() ==> (#[trigger] listing[i]).id != (#[trigger] listing[j]).id
    &&& forall|key: int| #[trigger]
        is_active(registry, key, now) ==> exists|i: int|
            0 <= i < listing.len() && (#[trigger] listing[i]).id == key
}

/// The keys whose records have expired at `now`.
pub open spec fn expired_keys(registry: Map<int, EntryView>, now: nat) -> Set<int> {
    Set::new(|key: int| registry.contains_key(key) && !is_live(registry[key], now))
}

/// The registry after a sweep at `now`: without the entries that have expired.
pub open spec fn swept(registry: Map<int, EntryView>, now: nat) -> Map<int, EntryView> {
    registry.remove_keys(expired_keys(registry, now))
}

/// A sequence of keys as mathematical integers, in the same order.
pub open spec fn as_ints(keys: Seq<i32>) -> Seq<int> {
    Seq::new(keys.len(), |i: int| keys[i] as int)
}

} // verus!

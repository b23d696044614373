//! The lifetime rule: when a stored record is live and how long it has left.

use vstd::prelude::*;
use crate::time::{Timestamp, NANOS_PER_SEC};

verus! {

/// What the registry stores under a key: the record's name and duration, and
/// the moment it was inserted. The key itself is not stored a second time.
#[derive(Debug, PartialEq, Eq)]
pub struct Entry {
    pub name: String,
    pub duration: i32,
    pub inserted_at: Timestamp,
}

/// What an `Entry` holds, as mathematical values.
pub ghost struct EntryView {
    pub name: Seq<char>,
    pub duration: int,
    pub inserted_at: nat,
}

impl View for Entry {
    type V = EntryView;

    open spec fn view(&self) -> EntryView {
        EntryView {
            name: self.name@,
            duration: self.duration as int,
            inserted_at: self.inserted_at@,
        }
    }
}

/// The nanoseconds that have passed at `now` since `inserted_at`. A clock
/// reading from before the insertion counts as no time passed.
pub open spec fn elapsed_nanos(inserted_at: nat, now: nat) -> nat {
    if now >= inserted_at {
        (now - inserted_at) as nat
    } else {
        0
    }
}

/// The lifetime, in nanoseconds, that a duration of `duration` seconds grants.
/// A duration that is not positive grants none.
pub open spec fn lifetime_nanos(duration: int) -> nat {
    if duration > 0 {
        (duration * NANOS_PER_SEC) as nat
    } else {
        0
    }
}

/// Whether the entry's lifetime has not yet elapsed at `now`.
pub open spec fn is_live(entry: EntryView, now: nat) -> bool {
    elapsed_nanos(entry.inserted_at, now) < lifetime_nanos(entry.duration)
}

/// The whole seconds between `now` and the end of the entry's lifetime,
/// rounded down; zero once the lifetime is over.
pub open spec fn remaining_seconds(entry: EntryView, now: nat) -> nat {
    let deadline = entry.inserted_at + lifetime_nanos(entry.duration);
    if deadline > now {
        ((deadline - now) / (NANOS_PER_SEC as int)) as nat
    } else {
        0
    }
}

impl Entry {
    /// The lifetime of the record in nanoseconds.
    fn lifetime(&self) -> (nanos: u64)
        ensures
            nanos as nat == lifetime_nanos(self@.duration),
    {
        if self.duration > 0 {
            let seconds: u64 = self.duration as u64;
            assert(seconds * NANOS_PER_SEC <= i32::MAX * NANOS_PER_SEC) by (nonlinear_arith)
                requires
                    seconds <= i32::MAX,
            ;
            seconds * NANOS_PER_SEC
        } else {
            0
        }
    }

    /// Whether the record is still live at `now`.
    pub fn is_live(&self, now: Timestamp) -> (live: bool)
        ensures
            live == is_live(self@, now@),
    {
        let elapsed: u64 = if now.nanos >= self.inserted_at.nanos {
            now.nanos - self.inserted_at.nanos
        } else {
            0
        };
        elapsed < self.lifetime()
    }

    /// The whole seconds of life the record has left at `now`.
    pub fn remaining_seconds(&self, now: Timestamp) -> (seconds: u64)
        ensures
            seconds as nat == remaining_seconds(self@, now@),
    {
        let deadline: u128 = self.inserted_at.nanos as u128 + self.lifetime() as u128;
        if deadline > now.nanos as u128 {
            ((deadline - now.nanos as u128) / (NANOS_PER_SEC as u128)) as u64
        } else {
            0
        }
    }
}

} // verus!

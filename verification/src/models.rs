//! The records that callers register and the answers that readers get back.

use vstd::prelude::*;

verus! {

/// A named record with a lifetime in seconds, registered under the key `id`.
#[derive(Debug, PartialEq, Eq)]
pub struct Domain {
    pub id: i32,
    pub name: String,
    pub duration: i32,
}

/// What a `Domain` holds, as mathematical values.
pub ghost struct DomainView {
    pub id: int,
    pub name: Seq<char>,
    pub duration: int,
}

impl View for Domain {
    type V = DomainView;

    open spec fn view(&self) -> DomainView {
        DomainView { id: self.id as int, name: self.name@, duration: self.duration as int }
    }
}

impl Clone for Domain {
    fn clone(&self) -> (copy: Self)
        ensures
            copy == *self,
    {
        Domain { id: self.id, name: self.name.clone(), duration: self.duration }
    }
}

/// A live record together with the whole seconds of life it has left.
#[derive(Debug, PartialEq, Eq)]
pub struct DomainStatus {
    pub id: i32,
    pub name: String,
    pub duration: i32,
    pub remaining_seconds: u64,
}

/// What a `DomainStatus` holds, as mathematical values.
pub ghost struct DomainStatusView {
    pub id: int,
    pub name: Seq<char>,
    pub duration: int,
    pub remaining_seconds: nat,
}

impl View for DomainStatus {
    type V = DomainStatusView;

    open spec fn view(&self) -> DomainStatusView {
        DomainStatusView {
            id: self.id as int,
            name: self.name@,
            duration: self.duration as int,
            remaining_seconds: self.remaining_seconds as nat,
        }
    }
}

/// The answer of the liveness probe.
#[derive(Debug, PartialEq, Eq)]
pub struct HealthResponse {
    pub status: String,
}

impl View for HealthResponse {
    type V = Seq<char>;

    open spec fn view(&self) -> Seq<char> {
        self.status@
    }
}

} // verus!

//! The registry's requests: what each one does to the state and what it
//! answers, with the HTTP status of the answer.

use vstd::prelude::*;
use vstd::string::StringExecFns;
use crate::errors::{
    conflict_message, not_found_message, AppError, AppErrorView, STATUS_CREATED, STATUS_OK,
};
use crate::models::{Domain, DomainStatus, HealthResponse};
use crate::registry::{accepts, inserted, lists_active, status_of, views_of};
use crate::state::AppState;
use crate::time::Timestamp;

verus! {

/// The status text of the liveness probe.
pub open spec fn health_status() -> Seq<char> {
    "I am healthier than you BROther"@
}

/// Answers the liveness probe: the status for an answer that carries what was
/// asked for, and the fixed status text. The answer does not depend on the
/// registry.
pub fn check_health() -> (response: (u16, HealthResponse))
    ensures
        response.0 == STATUS_OK,
        response.1@ == health_status(),
{
    (STATUS_OK, HealthResponse { status: String::from_str("I am healthier than you BROther") })
}

/// Registers `payload` at `now`. A free key is answered with the status for a
/// created record and the record as it was given; a taken key with the
/// conflict error, and the state stays as it was.
pub fn add_domains(state: &mut AppState, payload: Domain, now: Timestamp) -> (result: Result<
    (u16, Domain),
    AppError,
>)
    ensures
        match result {
            Ok(created) => accepts(old(state)@, payload@) && created.0 == STATUS_CREATED
                && created.1 == payload && final(state)@ == inserted(
                old(state)@,
                payload@,
                now@,
            ),
            Err(error) => !accepts(old(state)@, payload@) && final(state)@ == old(state)@
                && error@ == AppErrorView::Conflict(conflict_message(payload@.id)),
        },
{
    match state.insert(payload, now) {
        Ok(stored) => Ok((STATUS_CREATED, stored)),
        Err(error) => Err(error),
    }
}

/// Lists the records that are live at `now`, in no particular order. This
/// request never fails.
pub fn get_domains(state: &AppState, now: Timestamp) -> (listed: (u16, Vec<Domain>))
    ensures
        listed.0 == STATUS_OK,
        lists_active(views_of(listed.1@), state@, now@),
{
    (STATUS_OK, state.list_active(now))
}

/// Reports the record under `id` and the seconds it has left at `now`. A key
/// that is absent or whose record has expired is answered with the not-found
/// error.
pub fn get_domain(state: &AppState, id: i32, now: Timestamp) -> (result: Result<
    (u16, DomainStatus),
    AppError,
>)
    ensures
        match result {
            Ok(found) => found.0 == STATUS_OK && status_of(state@, id as int, now@) == Some(
                found.1@,
            ),
            Err(error) => status_of(state@, id as int, now@) is None && error@
                == AppErrorView::NotFound(not_found_message(id as int)),
        },
{
    match state.get_status(id, now) {
        Ok(status) => Ok((STATUS_OK, status)),
        Err(error) => Err(error),
    }
}

} // verus!

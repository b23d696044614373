//! The errors that the registry's callers see, and the HTTP status each one
//! is answered with.

use vstd::prelude::*;
use vstd::string::StringExecFns;
use crate::text::{append_decimal, decimal};

verus! {

/// The status of an answer that carries what was asked for.
pub const STATUS_OK: u16 = 200;

/// The status of an answer to a request that stored a new record.
pub const STATUS_CREATED: u16 = 201;

/// The status of an answer to a request for a key that holds no live record.
pub const STATUS_NOT_FOUND: u16 = 404;

/// The status of an answer to a request to store a record under a taken key.
pub const STATUS_CONFLICT: u16 = 409;

/// The status of an answer to a request that the registry could not serve.
pub const STATUS_INTERNAL_SERVER_ERROR: u16 = 500;

/// Why a request on the registry failed.
#[derive(Debug, PartialEq, Eq)]
pub enum AppError {
    /// The key is absent, or its record has expired.
    NotFound(String),
    /// The registry's storage could not be reached.
    Internal(String),
    /// The key is already present.
    Conflict(String),
}

/// The body of the answer to a request that failed: the error's message,
/// under the name `error`.
#[derive(Debug, PartialEq, Eq)]
pub struct ErrorBody {
    pub error: String,
}

impl View for ErrorBody {
    type V = Seq<char>;

    open spec fn view(&self) -> Seq<char> {
        self.error@
    }
}

/// What an `AppError` holds, as mathematical values.
pub ghost enum AppErrorView {
    NotFound(Seq<char>),
    Internal(Seq<char>),
    Conflict(Seq<char>),
}

impl View for AppError {
    type V = AppErrorView;

    open spec fn view(&self) -> AppErrorView {
        match *self {
            AppError::NotFound(message) => AppErrorView::NotFound(message@),
            AppError::Internal(message) => AppErrorView::Internal(message@),
            AppError::Conflict(message) => AppErrorView::Conflict(message@),
        }
    }
}

/// The message of the error for a key that is already present.
pub open spec fn conflict_message(key: int) -> Seq<char> {
    "Domain ID "@ + decimal(key) + " already exists"@
}

/// The message of the error for a key that holds no live record.
pub open spec fn not_found_message(key: int) -> Seq<char> {
    "Domain ID "@ + decimal(key) + " not found"@
}

/// The message of the error for a registry whose lock cannot be taken.
pub open spec fn lock_message() -> Seq<char> {
    "Mutex Poisoned"@
}

/// The status that an error is answered with.
pub open spec fn status_of_error(error: AppErrorView) -> u16 {
    match error {
        AppErrorView::NotFound(_) => STATUS_NOT_FOUND,
        AppErrorView::Internal(_) => STATUS_INTERNAL_SERVER_ERROR,
        AppErrorView::Conflict(_) => STATUS_CONFLICT,
    }
}

/// The message that an error carries.
pub open spec fn message_of_error(error: AppErrorView) -> Seq<char> {
    match error {
        AppErrorView::NotFound(message) => message,
        AppErrorView::Internal(message) => message,
        AppErrorView::Conflict(message) => message,
    }
}

impl AppError {
    /// The error for an insert under a key that is already present.
    pub fn conflict(key: i32) -> (error: AppError)
        ensures
            error@ == AppErrorView::Conflict(conflict_message(key as int)),
    {
        let mut message = String::from_str("Domain ID ");
        append_decimal(&mut message, key);
        message.append(" already exists");
        AppError::Conflict(message)
    }

    /// The error for a query of a key that is absent or whose record has
    /// expired. The two cases get the same error.
    pub fn not_found(key: i32) -> (error: AppError)
        ensures
            error@ == AppErrorView::NotFound(not_found_message(key as int)),
    {
        let mut message = String::from_str("Domain ID ");
        append_decimal(&mut message, key);
        message.append(" not found");
        AppError::NotFound(message)
    }

    /// The error for a request that could not take the registry's lock.
    pub fn lock_poisoned() -> (error: AppError)
        ensures
            error@ == AppErrorView::Internal(lock_message()),
    {
        AppError::Internal(String::from_str("Mutex Poisoned"))
    }

    /// The answer to a request that failed with this error: the error's status,
    /// and a body that reports the error's message.
    pub fn into_response(self) -> (response: (u16, ErrorBody))
        ensures
            response.0 == status_of_error(self@),
            response.1@ == message_of_error(self@),
    {
        match self {
            AppError::Internal(message) => (
                STATUS_INTERNAL_SERVER_ERROR,
                ErrorBody { error: message },
            ),
            AppError::NotFound(message) => (STATUS_NOT_FOUND, ErrorBody { error: message }),
            AppError::Conflict(message) => (STATUS_CONFLICT, ErrorBody { error: message }),
        }
    }
}

} // verus!

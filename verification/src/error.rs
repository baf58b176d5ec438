//! The error taxonomy of the library, and the HTTP status code owed to each
//! kind of failure.

use vstd::prelude::*;

verus! {

/// Why a request could not be served.
#[derive(Copy, Clone, Debug, PartialEq, Eq, Structural)]
pub enum AppError {
    /// The requested record does not exist in the backing store.
    NotFound,
    /// The request carried a value outside the accepted domain.
    Validation,
    /// The backing store was unreachable or a query failed.
    Upstream,
    /// A view-model could not be rendered into markup.
    Render,
}

/// The HTTP status code that each kind of failure maps to.
pub open spec fn spec_status_code(e: AppError) -> u16 {
    match e {
        AppError::NotFound => 404,
        AppError::Validation => 400,
        AppError::Upstream => 502,
        AppError::Render => 500,
    }
}

impl AppError {
    /// The HTTP status code of this failure: 404 for a missing record,
    /// 400 for rejected input, 502 for a storage failure, 500 for a
    /// render failure.
    pub fn status_code(&self) -> (s: u16)
        ensures
            s == spec_status_code(*self),
    {
        match self {
            AppError::NotFound => 404,
            AppError::Validation => 400,
            AppError::Upstream => 502,
            AppError::Render => 500,
        }
    }

    /// A short client-safe message for this failure; it never exposes
    /// internal query text or state.
    pub fn message(&self) -> (m: &'static str)
        ensures
            *self is NotFound ==> m@ == "record not found"@,
            *self is Validation ==> m@ == "request value out of range"@,
            *self is Upstream ==> m@ == "storage failure"@,
            *self is Render ==> m@ == "render failure"@,
    {
        match self {
            AppError::NotFound => "record not found",
            AppError::Validation => "request value out of range",
            AppError::Upstream => "storage failure",
            AppError::Render => "render failure",
        }
    }
}

} // verus!

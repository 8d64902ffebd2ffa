//! The failures that the engine reports to its callers.
//!
//! Every failure carries a human-readable message and belongs to one of three
//! classes, each with the status code that a transport layer reports for it.

use vstd::prelude::*;

verus! {

/// A failure of one of the engine's operations.
#[derive(Debug, PartialEq, Eq)]
pub enum ApiError {
    /// The dispatcher and the workers cannot reach each other.
    InternalError(String),
    /// The submitted script or schedule is malformed.
    RequestError(String),
    /// No script is stored under the given id.
    NotFoundError(String),
}

/// The mathematical value of an [`ApiError`]: its class and its message.
pub enum ApiErrorView {
    InternalError(Seq<char>),
    RequestError(Seq<char>),
    NotFoundError(Seq<char>),
}

impl ApiErrorView {
    /// The message, whatever the class.
    pub open spec fn message(self) -> Seq<char> {
        match self {
            ApiErrorView::InternalError(m) => m,
            ApiErrorView::RequestError(m) => m,
            ApiErrorView::NotFoundError(m) => m,
        }
    }

    /// The status code of the class.
    pub open spec fn status(self) -> int {
        match self {
            ApiErrorView::InternalError(_) => 500,
            ApiErrorView::RequestError(_) => 400,
            ApiErrorView::NotFoundError(_) => 404,
        }
    }
}

impl View for ApiError {
    type V = ApiErrorView;

    open spec fn view(&self) -> ApiErrorView {
        match self {
            ApiError::InternalError(m) => ApiErrorView::InternalError(m@),
            ApiError::RequestError(m) => ApiErrorView::RequestError(m@),
            ApiError::NotFoundError(m) => ApiErrorView::NotFoundError(m@),
        }
    }
}

impl ApiError {
    /// The status code that a transport reports for this failure.
    pub fn status(&self) -> (code: u16)
        ensures
            code == self@.status(),
    {
        match self {
            ApiError::InternalError(_) => 500,
            ApiError::RequestError(_) => 400,
            ApiError::NotFoundError(_) => 404,
        }
    }

    /// The message of this failure.
    pub fn message(&self) -> (text: &str)
        ensures
            text@ == self@.message(),
    {
        match self {
            ApiError::InternalError(m) => m.as_str(),
            ApiError::RequestError(m) => m.as_str(),
            ApiError::NotFoundError(m) => m.as_str(),
        }
    }
}

/// Reports a communication failure between the dispatcher and the workers.
pub fn interal_error(err: String) -> (e: ApiError)
    ensures
        e@ == ApiErrorView::InternalError(err@),
{
    ApiError::InternalError(err)
}

/// Reports that no script is stored under an id.
pub fn notfound_error(err: String) -> (e: ApiError)
    ensures
        e@ == ApiErrorView::NotFoundError(err@),
{
    ApiError::NotFoundError(err)
}

/// Reports a malformed script or schedule.
pub fn badrequest_error(err: String) -> (e: ApiError)
    ensures
        e@ == ApiErrorView::RequestError(err@),
{
    ApiError::RequestError(err)
}

} // verus!

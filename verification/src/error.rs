//! The error a failed dispatch reports, and the status a transport gives it.

use vstd::prelude::*;
use crate::text::join;

verus! {

/// Why a request, a publish or a connection failed.
#[derive(Clone, Debug)]
pub enum CoreError {
    /// No route, RPC method or handler answers to what was asked for.
    NotFound(String),
    /// The request is not acceptable: malformed JSON, a body that fails its
    /// schema, no dispatch function installed.
    Validation(String),
    /// A value could not be written as JSON.
    Json(String),
}

/// The mathematical value of a [`CoreError`].
pub ghost enum ErrorView {
    NotFound(Seq<char>),
    Validation(Seq<char>),
    Json(Seq<char>),
}

impl View for CoreError {
    type V = ErrorView;

    open spec fn view(&self) -> ErrorView {
        match self {
            CoreError::NotFound(s) => ErrorView::NotFound(s@),
            CoreError::Validation(s) => ErrorView::Validation(s@),
            CoreError::Json(s) => ErrorView::Json(s@),
        }
    }
}

/// The view of a result whose error is a [`CoreError`] and whose value is
/// compared as it is.
pub open spec fn outcome_view<T>(r: Result<T, CoreError>) -> Result<T, ErrorView> {
    match r {
        Ok(v) => Ok(v),
        Err(e) => Err(e@),
    }
}

/// The wire status of an error: 404 for `NotFound`, 400 for every other.
pub open spec fn status_of(e: ErrorView) -> u16 {
    match e {
        ErrorView::NotFound(_) => 404,
        _ => 400,
    }
}

/// The text of an error: a prefix that names its kind, then its detail.
pub open spec fn message_of(e: ErrorView) -> Seq<char> {
    match e {
        ErrorView::NotFound(s) => "route not found: "@ + s,
        ErrorView::Validation(s) => "validation error: "@ + s,
        ErrorView::Json(s) => "invalid JSON: "@ + s,
    }
}

impl CoreError {
    /// The status code a transport answers this error with.
    pub fn status_code(&self) -> (r: u16)
        ensures
            r == status_of(self@),
    {
        match self {
            CoreError::NotFound(_) => 404,
            _ => 400,
        }
    }

    /// The human-readable text of this error.
    pub fn message(&self) -> (r: String)
        ensures
            r@ == message_of(self@),
    {
        match self {
            CoreError::NotFound(s) => join("route not found: ", s.as_str()),
            CoreError::Validation(s) => join("validation error: ", s.as_str()),
            CoreError::Json(s) => join("invalid JSON: ", s.as_str()),
        }
    }
}

} // verus!

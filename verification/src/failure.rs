//! The ways a request can fail.

use vstd::prelude::*;

verus! {

/// Why a request was not served.
#[derive(Debug, PartialEq, Eq)]
pub enum Failure {
    /// The request body is malformed; `field` names the member that is
    /// missing or has the wrong shape.
    Validation { field: String },
    /// A read matched no row.
    NotFound,
    /// The store did not execute the statement, or answered with something
    /// that is no answer to it.
    Persistence,
    /// The key is unusable or the cipher failed.
    Sealing,
}

/// A failure as contracts speak of it.
pub enum FailureView {
    Validation(Seq<char>),
    NotFound,
    Persistence,
    Sealing,
}

impl View for Failure {
    type V = FailureView;

    open spec fn view(&self) -> FailureView {
        match *self {
            Failure::Validation { field } => FailureView::Validation(field@),
            Failure::NotFound => FailureView::NotFound,
            Failure::Persistence => FailureView::Persistence,
            Failure::Sealing => FailureView::Sealing,
        }
    }
}

/// The status a failure is answered with.
pub open spec fn status_of(failure: FailureView) -> int {
    match failure {
        FailureView::Validation(_) => 400,
        FailureView::NotFound => 404,
        FailureView::Persistence => 500,
        FailureView::Sealing => 500,
    }
}

impl Failure {
    /// A validation failure that names `field`.
    pub fn validation(field: &str) -> (out: Failure)
        ensures
            out@ == FailureView::Validation(field@),
    {
        Failure::Validation { field: String::from_str(field) }
    }

    /// The status the failure is answered with: 400 for a malformed
    /// request, 404 for a missing row, 500 for the others.
    pub fn status_code(&self) -> (out: u16)
        ensures
            out as int == status_of(self@),
    {
        match self {
            Failure::Validation { .. } => 400,
            Failure::NotFound => 404,
            Failure::Persistence => 500,
            Failure::Sealing => 500,
        }
    }
}

} // verus!

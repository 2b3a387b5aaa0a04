//! The failures that the service reports, and how each is shown.

use vstd::prelude::*;
use vstd::string::StringExecFns;

verus! {

#[derive(Debug, Clone, PartialEq, Eq)]
pub enum AppError {
    /// A lookup matched nothing.
    NotFound,
    /// An upstream fetch failed; the text names the store and the cause.
    Upstream(String),
    /// A request or a piece of configuration was not valid.
    BadRequest(String),
    /// The storage failed; the text is for the log only.
    Database(String),
}

pub enum ErrorView {
    NotFound,
    Upstream(Seq<char>),
    BadRequest(Seq<char>),
    Database(Seq<char>),
}

impl View for AppError {
    type V = ErrorView;

    open spec fn view(&self) -> ErrorView {
        match self {
            AppError::NotFound => ErrorView::NotFound,
            AppError::Upstream(detail) => ErrorView::Upstream(detail@),
            AppError::BadRequest(detail) => ErrorView::BadRequest(detail@),
            AppError::Database(detail) => ErrorView::Database(detail@),
        }
    }
}

/// The text of an error for logs.
pub open spec fn error_text(e: ErrorView) -> Seq<char> {
    match e {
        ErrorView::NotFound => "Product not found"@,
        ErrorView::Upstream(detail) => "Upstream request failed: "@ + detail,
        ErrorView::BadRequest(detail) => "Invalid request: "@ + detail,
        ErrorView::Database(detail) => "Database error: "@ + detail,
    }
}

/// The HTTP status with which an error is answered.
pub open spec fn error_status(e: ErrorView) -> int {
    match e {
        ErrorView::NotFound => 404,
        ErrorView::Upstream(_) => 502,
        ErrorView::BadRequest(_) => 400,
        ErrorView::Database(_) => 500,
    }
}

/// The machine-readable code of an error.
pub open spec fn error_code(e: ErrorView) -> Seq<char> {
    match e {
        ErrorView::NotFound => "NOT_FOUND"@,
        ErrorView::Upstream(_) => "UPSTREAM_ERROR"@,
        ErrorView::BadRequest(_) => "BAD_REQUEST"@,
        ErrorView::Database(_) => "DATABASE_ERROR"@,
    }
}

/// The message that a caller is shown. A storage failure shows a fixed
/// sentence and never its detail.
pub open spec fn error_public_message(e: ErrorView) -> Seq<char> {
    match e {
        ErrorView::NotFound => "Requested resource was not found"@,
        ErrorView::Upstream(detail) => detail,
        ErrorView::BadRequest(detail) => detail,
        ErrorView::Database(_) => "Database operation failed"@,
    }
}

fn prefixed(prefix: &str, detail: &String) -> (out: String)
    ensures
        out@ == prefix@ + detail@,
{
    let mut out = prefix.to_owned();
    out.append(detail.as_str());
    out
}

impl AppError {
    pub fn message(&self) -> (out: String)
        ensures
            out@ == error_text(self@),
    {
        match self {
            AppError::NotFound => "Product not found".to_owned(),
            AppError::Upstream(detail) => prefixed("Upstream request failed: ", detail),
            AppError::BadRequest(detail) => prefixed("Invalid request: ", detail),
            AppError::Database(detail) => prefixed("Database error: ", detail),
        }
    }

    pub fn status_code(&self) -> (out: u16)
        ensures
            out == error_status(self@),
    {
        match self {
            AppError::NotFound => 404,
            AppError::Upstream(_) => 502,
            AppError::BadRequest(_) => 400,
            AppError::Database(_) => 500,
        }
    }

    pub fn code(&self) -> (out: &'static str)
        ensures
            out@ == error_code(self@),
    {
        match self {
            AppError::NotFound => "NOT_FOUND",
            AppError::Upstream(_) => "UPSTREAM_ERROR",
            AppError::BadRequest(_) => "BAD_REQUEST",
            AppError::Database(_) => "DATABASE_ERROR",
        }
    }

    pub fn public_message(&self) -> (out: String)
        ensures
            out@ == error_public_message(self@),
    {
        match self {
            AppError::NotFound => "Requested resource was not found".to_owned(),
            AppError::Upstream(detail) => detail.clone(),
            AppError::BadRequest(detail) => detail.clone(),
            AppError::Database(_) => "Database operation failed".to_owned(),
        }
    }
}

} // verus!

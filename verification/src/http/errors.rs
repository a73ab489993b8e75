//! Errors of the HTTP API and the responses they become.
use vstd::prelude::*;
use vstd::string::StringExecFns;

verus! {

/// An error a request handler can end with.
#[derive(Debug)]
pub enum VialoError {
    /// An unexpected failure; the text is for the log only.
    Anyhow(String),
    /// An error caused by the request, with its HTTP status and code.
    AppError(u16, String),
    /// As `AppError`, with a JSON document of details.
    AppErrorWithDetails(u16, String, String),
    NotFound,
    Forbidden,
}

/// The body of an error response: `{"status": "error", "code": code}` plus
/// `"details"` where there are any.
#[derive(Debug)]
pub struct ErrorResponse {
    pub status: u16,
    pub code: String,
    pub details: Option<String>,
}

/// The status and code of the response an error becomes.
pub open spec fn response_of(e: VialoError) -> (u16, Seq<char>, Option<Seq<char>>) {
    match e {
        VialoError::Anyhow(_) => (500, "internal_error"@, None),
        VialoError::AppError(status, code) => (status, code@, None),
        VialoError::AppErrorWithDetails(status, code, details) => (status, code@, Some(details@)),
        VialoError::NotFound => (404, "not_found"@, None),
        VialoError::Forbidden => (403, "forbidden"@, None),
    }
}

impl VialoError {
    /// The response this error becomes. Only unexpected failures are worth
    /// logging; the others are caused by the request.
    pub fn into_response(self) -> (r: ErrorResponse)
        ensures
            (r.status, r.code@, match r.details {
                Some(d) => Some(d@),
                None => None,
            }) == response_of(self),
    {
        match self {
            VialoError::Anyhow(_) => ErrorResponse {
                status: 500,
                code: String::from_str("internal_error"),
                details: None,
            },
            VialoError::AppError(status, code) => ErrorResponse { status, code, details: None },
            VialoError::AppErrorWithDetails(status, code, details) => ErrorResponse {
                status,
                code,
                details: Some(details),
            },
            VialoError::NotFound => ErrorResponse {
                status: 404,
                code: String::from_str("not_found"),
                details: None,
            },
            VialoError::Forbidden => ErrorResponse {
                status: 403,
                code: String::from_str("forbidden"),
                details: None,
            },
        }
    }

    /// Whether the error is worth logging: only unexpected failures are.
    pub fn is_unexpected(&self) -> (b: bool)
        ensures
            b == (self is Anyhow),
    {
        match self {
            VialoError::Anyhow(_) => true,
            _ => false,
        }
    }
}

/// A database error that found no row is a 404; any other is unexpected.
pub fn from_db_error(row_not_found: bool, text: String) -> (e: VialoError)
    ensures
        row_not_found ==> e is NotFound,
        !row_not_found ==> e == VialoError::Anyhow(text),
{
    if row_not_found {
        VialoError::NotFound
    } else {
        VialoError::Anyhow(text)
    }
}

/// `Ok` when a permission check found the access allowed, else `Forbidden`.
pub fn require(allowed: bool) -> (r: Result<(), VialoError>)
    ensures
        r is Ok <==> allowed,
        r matches Err(e) ==> e is Forbidden,
{
    if allowed {
        Ok(())
    } else {
        Err(VialoError::Forbidden)
    }
}

/// An update of one row by its key answers `NotFound` unless exactly one
/// row changed.
pub fn require_one_row(rows_affected: u64) -> (r: Result<(), VialoError>)
    ensures
        r is Ok <==> rows_affected == 1,
        r matches Err(e) ==> e is NotFound,
{
    if rows_affected == 1 {
        Ok(())
    } else {
        Err(VialoError::NotFound)
    }
}

} // verus!

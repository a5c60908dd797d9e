//! Errors at the HTTP boundary and the status and message each one gets.

use vstd::prelude::*;
use vstd::string::*;

use crate::error::{not_found_message, not_found_text, ErrorView, ServiceError};
use crate::pagination::{params_hint_text, SearchParams};
use crate::text::{chars_of, find_chars, find_text, split_chars, split_on, string_from_chars, sub_chars};

verus! {

/// An error of a request: from the note operations, or a request that
/// could not be read (query string, path parameter or JSON body).
#[derive(Debug)]
pub enum AppError {
    Service(ServiceError),
    BadRequest(String),
}

/// The marker that a query-string reader puts before a field it does not
/// know.
pub open spec fn unknown_field_marker() -> Seq<char> {
    "unknown field `"@
}

/// The message for a query string that could not be read: the unknown
/// field the reader names, if it names one, then the list of valid
/// parameters.
pub open spec fn query_rejection_text(body: Seq<char>) -> Seq<char> {
    rejection_prefix(body) + " "@ + params_hint_text()
}

/// The first sentence of the message for an unreadable query string.
pub open spec fn rejection_prefix(body: Seq<char>) -> Seq<char> {
    match find_text(body, unknown_field_marker()) {
        Some(start) => {
            let rest = body.skip(start + unknown_field_marker().len());
            "Invalid query parameter '"@ + split_on(rest, '`')[0] + "'."@
        },
        None => "Invalid query parameters."@,
    }
}

fn rejection_prefix_text(body: &str) -> (r: String)
    ensures
        r@ == rejection_prefix(body@),
{
    let text = chars_of(body);
    let marker = chars_of("unknown field `");
    match find_chars(&text, &marker) {
        Some(start) => {
            assert(crate::text::occurs_at(text@, marker@, start as int));
            let k = marker.len();
            let n = text.len();
            assert(start + k <= n);
            let rest = sub_chars(&text, start + k, n);
            assert(rest@ =~= text@.skip(start + marker@.len()));
            let pieces = split_chars(&rest, '`');
            proof {
                crate::text::lemma_split_nonempty(rest@, '`');
            }
            let field = string_from_chars(&pieces[0]);
            let mut m = String::from_str("Invalid query parameter '");
            m.append(field.as_str());
            m.append("'.");
            m
        },
        None => String::from_str("Invalid query parameters."),
    }
}

/// The HTTP status and message of an error: 400 for bad requests and
/// failed validation, 404 for missing entities, 500 for storage failures.
pub open spec fn status_of(e: AppError) -> (u16, Seq<char>) {
    match e {
        AppError::BadRequest(m) => (400, m@),
        AppError::Service(s) => match s@ {
            ErrorView::Validation(m) => (400, m),
            ErrorView::NotFound(entity, id) => (404, not_found_text(entity, id)),
            ErrorView::Internal(m) => (500, m),
        },
    }
}

impl AppError {
    /// A service error at the boundary.
    pub fn from_service(error: ServiceError) -> (r: AppError)
        ensures
            r == AppError::Service(error),
    {
        AppError::Service(error)
    }

    /// The error for a query string that could not be read, from the text
    /// the reader gave.
    pub fn from_query_rejection(body: &str) -> (r: AppError)
        ensures
            r matches AppError::BadRequest(m) && m@ == query_rejection_text(body@),
    {
        let mut message = rejection_prefix_text(body);
        message.append(" ");
        let hint = SearchParams::params_hint();
        message.append(hint.as_str());
        AppError::BadRequest(message)
    }

    /// The HTTP status code and message of the error.
    pub fn status_and_message(&self) -> (r: (u16, String))
        ensures
            r.0 == status_of(*self).0,
            r.1@ == status_of(*self).1,
    {
        match self {
            AppError::BadRequest(m) => (400, m.clone()),
            AppError::Service(ServiceError::Validation(m)) => (400, m.clone()),
            AppError::Service(ServiceError::NotFound { entity, id }) => (404, not_found_message(entity.as_str(), *id)),
            AppError::Service(ServiceError::Internal(m)) => (500, m.clone()),
        }
    }
}

impl From<ServiceError> for AppError {
    fn from(error: ServiceError) -> AppError {
        AppError::from_service(error)
    }
}

impl vstd::std_specs::convert::FromSpecImpl<ServiceError> for AppError {
    open spec fn obeys_from_spec() -> bool {
        false
    }

    open spec fn from_spec(v: ServiceError) -> AppError {
        arbitrary()
    }
}

} // verus!

//! Error kinds of the note operations and of the storage layer beneath them.

use vstd::prelude::*;
use vstd::string::*;

use crate::text::{signed_decimal, signed_decimal_chars, string_from_chars};

verus! {

/// The errors that a note operation can end with.
#[derive(Debug)]
pub enum ServiceError {
    /// The request failed validation; the message names the offending
    /// parameter or field.
    Validation(String),
    /// The entity with this id does not exist.
    NotFound { entity: String, id: i64 },
    /// The storage layer failed; the message is its own.
    Internal(String),
}

/// What a [`ServiceError`] says, with its texts as character sequences.
pub enum ErrorView {
    Validation(Seq<char>),
    NotFound(Seq<char>, i64),
    Internal(Seq<char>),
}

impl View for ServiceError {
    type V = ErrorView;

    open spec fn view(&self) -> ErrorView {
        match self {
            ServiceError::Validation(m) => ErrorView::Validation(m@),
            ServiceError::NotFound { entity, id } => ErrorView::NotFound(entity@, *id),
            ServiceError::Internal(m) => ErrorView::Internal(m@),
        }
    }
}

/// A result of a note operation with its error seen through [`ErrorView`].
pub open spec fn outcome<T>(r: Result<T, ServiceError>) -> Result<T, ErrorView> {
    match r {
        Ok(v) => Ok(v),
        Err(e) => Err(e@),
    }
}

/// The entity name that not-found errors of notes carry.
pub open spec fn note_entity() -> Seq<char> {
    "Note"@
}

/// An error of the note storage layer.
#[derive(Debug)]
pub enum NoteRepositoryError {
    /// The storage engine failed; the message is the driver's.
    DatabaseError(String),
    /// No note has this id.
    NotFound(i64),
}

/// An error of the storage layer that is not tied to one entity.
#[derive(Debug)]
pub enum RepositoryError {
    /// The storage engine failed; the message is the driver's.
    DatabaseError(String),
    /// No entity of this kind has this id.
    NotFound { entity: String, id: i64 },
}

/// The service error that a note storage error becomes: not-found stays
/// not-found, every driver failure becomes an internal error.
pub open spec fn service_error_of_note(e: NoteRepositoryError) -> ErrorView {
    match e {
        NoteRepositoryError::DatabaseError(m) => ErrorView::Internal(m@),
        NoteRepositoryError::NotFound(id) => ErrorView::NotFound(note_entity(), id),
    }
}

/// The service error that a storage error becomes.
pub open spec fn service_error_of_repository(e: RepositoryError) -> ErrorView {
    match e {
        RepositoryError::DatabaseError(m) => ErrorView::Internal(m@),
        RepositoryError::NotFound { entity, id } => ErrorView::NotFound(entity@, id),
    }
}

/// A not-found error for the note with this id.
pub fn note_not_found(id: i64) -> (e: ServiceError)
    ensures
        e@ == ErrorView::NotFound(note_entity(), id),
{
    ServiceError::NotFound { entity: String::from_str("Note"), id }
}

/// `{entity} with ID {id} not found`.
pub open spec fn not_found_text(entity: Seq<char>, id: i64) -> Seq<char> {
    entity + " with ID "@ + signed_decimal(id as int) + " not found"@
}

/// The text of an error as it reads to people.
pub open spec fn error_text(e: ErrorView) -> Seq<char> {
    match e {
        ErrorView::Validation(m) => "Validation error: "@ + m,
        ErrorView::NotFound(entity, id) => not_found_text(entity, id),
        ErrorView::Internal(m) => "Internal error: "@ + m,
    }
}

/// Writes `{entity} with ID {id} not found`.
pub fn not_found_message(entity: &str, id: i64) -> (r: String)
    ensures
        r@ == not_found_text(entity@, id),
{
    let mut m = String::from_str(entity);
    m.append(" with ID ");
    let digits = string_from_chars(&signed_decimal_chars(id));
    m.append(digits.as_str());
    m.append(" not found");
    m
}

impl ServiceError {
    /// The error as it reads to people.
    pub fn to_string(&self) -> (r: String)
        ensures
            r@ == error_text(self@),
    {
        match self {
            ServiceError::Validation(m) => {
                let mut t = String::from_str("Validation error: ");
                t.append(m.as_str());
                t
            },
            ServiceError::NotFound { entity, id } => not_found_message(entity.as_str(), *id),
            ServiceError::Internal(m) => {
                let mut t = String::from_str("Internal error: ");
                t.append(m.as_str());
                t
            },
        }
    }

    /// The service error for a note storage error.
    pub fn from_note_error(error: NoteRepositoryError) -> (r: ServiceError)
        ensures
            r@ == service_error_of_note(error),
    {
        match error {
            NoteRepositoryError::NotFound(id) => note_not_found(id),
            NoteRepositoryError::DatabaseError(message) => ServiceError::Internal(message),
        }
    }

    /// The service error for a storage error.
    pub fn from_repository_error(error: RepositoryError) -> (r: ServiceError)
        ensures
            r@ == service_error_of_repository(error),
    {
        match error {
            RepositoryError::NotFound { entity, id } => ServiceError::NotFound { entity, id },
            RepositoryError::DatabaseError(message) => ServiceError::Internal(message),
        }
    }
}

impl RepositoryError {
    /// The entity-agnostic form of a note storage error.
    pub fn from_note_error(error: NoteRepositoryError) -> (r: RepositoryError)
        ensures
            service_error_of_repository(r) == service_error_of_note(error),
    {
        match error {
            NoteRepositoryError::DatabaseError(message) => RepositoryError::DatabaseError(message),
            NoteRepositoryError::NotFound(id) => RepositoryError::NotFound {
                entity: String::from_str("Note"),
                id,
            },
        }
    }
}

impl From<NoteRepositoryError> for ServiceError {
    fn from(error: NoteRepositoryError) -> ServiceError {
        ServiceError::from_note_error(error)
    }
}

impl vstd::std_specs::convert::FromSpecImpl<NoteRepositoryError> for ServiceError {
    open spec fn obeys_from_spec() -> bool {
        false
    }

    open spec fn from_spec(v: NoteRepositoryError) -> ServiceError {
        arbitrary()
    }
}

impl From<RepositoryError> for ServiceError {
    fn from(error: RepositoryError) -> ServiceError {
        ServiceError::from_repository_error(error)
    }
}

impl vstd::std_specs::convert::FromSpecImpl<RepositoryError> for ServiceError {
    open spec fn obeys_from_spec() -> bool {
        false
    }

    open spec fn from_spec(v: RepositoryError) -> ServiceError {
        arbitrary()
    }
}

impl From<NoteRepositoryError> for RepositoryError {
    fn from(error: NoteRepositoryError) -> RepositoryError {
        RepositoryError::from_note_error(error)
    }
}

impl vstd::std_specs::convert::FromSpecImpl<NoteRepositoryError> for RepositoryError {
    open spec fn obeys_from_spec() -> bool {
        false
    }

    open spec fn from_spec(v: NoteRepositoryError) -> RepositoryError {
        arbitrary()
    }
}

} // verus!

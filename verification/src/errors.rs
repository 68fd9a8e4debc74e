//! The error type shared by the indexing pipeline, and its messages.

use vstd::prelude::*;
use vstd::string::*;

verus! {

/// A failed operation of the retrieval store.
#[derive(Debug, Clone)]
pub struct DatabaseError {
    pub operation: String,
    pub table: String,
}

/// A failed fetch of a remote artifact.
#[derive(Debug, Clone)]
pub struct NetworkError {
    pub url: String,
    pub status: Option<u16>,
    pub message: String,
}

/// An input that was rejected.
#[derive(Debug, Clone)]
pub struct ValidationError {
    pub field: String,
    pub message: String,
    pub value: Option<String>,
}

/// What can go wrong while indexing or querying.
#[derive(Debug, Clone)]
pub enum AppError {
    /// A store operation failed.
    Database(DatabaseError),
    /// An artifact could not be fetched.
    Network(NetworkError),
    /// An input was rejected.
    Validation(ValidationError),
    /// Something that was looked up does not exist.
    NotFound { resource: String, id: String },
    /// A collaborator failed for a reason of its own.
    Internal(String),
}

impl AppError {
    /// The text that describes the error.
    pub open spec fn message(&self) -> Seq<char> {
        match self {
            AppError::Database(e) => "Database error in "@ + e.table@ + "."@ + e.operation@ + ": "@,
            AppError::Network(e) => "Network error for "@ + e.url@ + ": "@ + e.message@,
            AppError::Validation(e) => "Validation error for '"@ + e.field@ + "': "@ + e.message@,
            AppError::NotFound { resource, id } => resource@ + " not found: "@ + id@,
            AppError::Internal(msg) => "Internal error: "@ + msg@,
        }
    }

    /// Renders the error as text.
    pub fn to_string(&self) -> (text: String)
        ensures
            text@ == self.message(),
    {
        match self {
            AppError::Database(e) => {
                let mut text = String::from_str("Database error in ");
                text.append(e.table.as_str());
                text.append(".");
                text.append(e.operation.as_str());
                text.append(": ");
                text
            },
            AppError::Network(e) => {
                let mut text = String::from_str("Network error for ");
                text.append(e.url.as_str());
                text.append(": ");
                text.append(e.message.as_str());
                text
            },
            AppError::Validation(e) => {
                let mut text = String::from_str("Validation error for '");
                text.append(e.field.as_str());
                text.append("': ");
                text.append(e.message.as_str());
                text
            },
            AppError::NotFound { resource, id } => {
                let mut text = resource.clone();
                text.append(" not found: ");
                text.append(id.as_str());
                text
            },
            AppError::Internal(msg) => {
                let mut text = String::from_str("Internal error: ");
                text.append(msg.as_str());
                text
            },
        }
    }

    /// Wraps the error in an internal error whose text is `msg`, a colon and
    /// the text of the error itself.
    pub fn context(self, msg: &str) -> (wrapped: AppError)
        ensures
            wrapped matches AppError::Internal(text) && text@ == msg@ + ": "@ + self.message(),
            wrapped.message() == "Internal error: "@ + msg@ + ": "@ + self.message(),
    {
        let mut text = String::from_str(msg);
        text.append(": ");
        let inner = self.to_string();
        text.append(inner.as_str());
        assert("Internal error: "@ + (msg@ + ": "@ + self.message()) =~= "Internal error: "@ + msg@
            + ": "@ + self.message());
        AppError::Internal(text)
    }
}

/// Whether `err` rejects `field` for the reason in `message`, with no value attached.
pub open spec fn is_validation(err: AppError, field: Seq<char>, message: Seq<char>) -> bool {
    err matches AppError::Validation(e) && e.field@ == field && e.message@ == message
        && e.value is None
}

/// Whether `err` is an internal error with the text `message`.
pub open spec fn is_internal(err: AppError, message: Seq<char>) -> bool {
    err matches AppError::Internal(text) && text@ == message
}

/// The internal error with the text `message`.
pub fn internal_error(message: String) -> (err: AppError)
    ensures
        is_internal(err, message@),
{
    AppError::Internal(message)
}

/// The error for a `resource` that has no entry under `id`.
pub fn not_found(resource: &str, id: &str) -> (err: AppError)
    ensures
        err matches AppError::NotFound { resource: r, id: i } && r@ == resource@ && i@ == id@,
        err.message() == resource@ + " not found: "@ + id@,
{
    AppError::NotFound { resource: String::from_str(resource), id: String::from_str(id) }
}

/// The error for a `field` that was rejected for the reason in `message`.
pub fn validation_error(field: &str, message: &str) -> (err: AppError)
    ensures
        is_validation(err, field@, message@),
        err.message() == "Validation error for '"@ + field@ + "': "@ + message@,
{
    AppError::Validation(
        ValidationError {
            field: String::from_str(field),
            message: String::from_str(message),
            value: None,
        },
    )
}

} // verus!

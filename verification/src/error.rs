use vstd::prelude::*;

verus! {

/// Errors of the NodeGet server, each carrying a human-readable message.
#[derive(Debug, Clone, PartialEq, Eq)]
pub enum NodegetError {
    /// A request field is malformed.
    InvalidInput(String),
    /// A value could not be parsed.
    ParseError(String),
    /// The credential lacks the permission the request needs.
    PermissionDenied(String),
    /// A looked-up record does not exist.
    NotFound(String),
    /// The database failed or is not reachable.
    DatabaseError(String),
    /// A value could not be (de)serialised.
    SerializationError(String),
    /// A required configuration or component is missing.
    ConfigNotFound(String),
    /// Any other failure.
    Other(String),
}

} // verus!

//! Error kinds surfaced by the services and the authorization gate.

use vstd::prelude::*;

verus! {

/// The abstract failure kinds of the service layer.
#[derive(Clone, Copy, Debug, PartialEq, Eq, Structural)]
pub enum ApiError {
    /// The input violates a validation rule.
    Validation,
    /// The caller is not authenticated.
    Unauthorized,
    /// The caller is authenticated but not allowed.
    Forbidden,
    /// The addressed record does not exist.
    NotFound,
    /// The request conflicts with an existing record.
    Conflict,
    /// An internal step failed.
    Internal,
}

/// Failures of the authorization gate.
#[derive(Clone, Copy, Debug, PartialEq, Eq, Structural)]
pub enum AuthError {
    /// A storage-level failure.
    DatabaseError,
    /// The user has no accepted membership in the addressed room.
    AccessDenied,
    /// The bearer token does not decode to live claims.
    InvalidToken,
    /// No unexpired session exists for the token.
    SessionExpired,
}

} // verus!

//! The failure taxonomy of the service core, and the response class that the
//! boundary layer owes each failure kind.

use vstd::prelude::*;

verus! {

/// A typed failure, propagated unchanged up to the boundary layer.
///
/// - `Store`: the underlying data store is unreachable, not yet connected, or
///   rejected a transaction (constraint violation); retriable by the next
///   top-level call.
/// - `Migrations`: the schema could not be brought up to date; fatal for that
///   connection attempt only.
/// - `Validation`: malformed client input (name, email); never retried.
/// - `Auth`: a single undifferentiated authentication failure; the message
///   never reveals whether the user was unknown, the secret wrong, or the
///   header malformed.
/// - `Custom`: anything else.
#[derive(Debug, Clone)]
pub enum Error {
    Store(String),
    Migrations(String),
    Validation(String),
    Auth(String),
    Custom(String),
}

/// The response class that the boundary layer must produce for an `Error`.
#[derive(Debug, Clone, Copy, PartialEq, Eq, Structural)]
pub enum StatusKind {
    BadRequest,
    Unauthorized,
    InternalServerError,
}

impl Error {
    /// Classifies the failure for the boundary layer: client input errors are
    /// the client's fault, authentication failures demand a challenge, and
    /// everything else is an internal fault.
    pub fn status_kind(&self) -> (r: StatusKind)
        ensures
            r is BadRequest <==> self is Validation,
            r is Unauthorized <==> self is Auth,
            r is InternalServerError <==> (self is Store || self is Migrations || self is Custom),
    {
        match self {
            Error::Validation(_) => StatusKind::BadRequest,
            Error::Auth(_) => StatusKind::Unauthorized,
            Error::Store(_) => StatusKind::InternalServerError,
            Error::Migrations(_) => StatusKind::InternalServerError,
            Error::Custom(_) => StatusKind::InternalServerError,
        }
    }

    /// A human-readable account of the failure, in place of `Display`.
    pub fn message(&self) -> (r: &str)
        ensures
            self matches Error::Store(m) ==> r@ == m@,
            self matches Error::Migrations(m) ==> r@ == m@,
            self matches Error::Validation(m) ==> r@ == m@,
            self matches Error::Auth(m) ==> r@ == m@,
            self matches Error::Custom(m) ==> r@ == m@,
    {
        match self {
            Error::Store(m) => m.as_str(),
            Error::Migrations(m) => m.as_str(),
            Error::Validation(m) => m.as_str(),
            Error::Auth(m) => m.as_str(),
            Error::Custom(m) => m.as_str(),
        }
    }
}

} // verus!

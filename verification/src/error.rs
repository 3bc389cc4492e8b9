//! The export path's error type.  Transport-library error values cannot be
//! inspected here, so the variants that wrap them carry their rendered
//! messages.

use vstd::prelude::*;
use crate::auth::GcpAuthorizerError;

verus! {

/// Represents the details of an [`Error`].
#[derive(Debug)]
pub enum ErrorKind {
    Other(String),
    Authorizer(GcpAuthorizerError),
    TonicMetadata(String),
    GrpcStatus(String),
    UrlError(String),
    UrlErrorInvalidAuthority(String),
}

/// An error raised while preparing, authorizing or delivering a backend
/// call.
#[derive(Debug)]
pub struct Error {
    kind: Box<ErrorKind>,
}

impl Error {
    pub closed spec fn spec_kind(&self) -> ErrorKind {
        *self.kind
    }

    /// Wraps a kind.
    pub fn from_kind(kind: ErrorKind) -> (r: Error)
        ensures
            r.spec_kind() == kind,
    {
        Error { kind: Box::new(kind) }
    }

    /// Borrow the [`ErrorKind`].
    pub fn kind(&self) -> (r: &ErrorKind)
        ensures
            *r == self.spec_kind(),
    {
        &self.kind
    }

    /// Own the [`ErrorKind`].
    pub fn into_kind(self) -> (r: ErrorKind)
        ensures
            r == self.spec_kind(),
    {
        *self.kind
    }
}

} // verus!

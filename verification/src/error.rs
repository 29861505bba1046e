//! The failures that the authentication service reports.

use vstd::prelude::*;

verus! {

/// Why a request was refused.
#[derive(Clone, Copy, Debug, PartialEq, Eq, Structural)]
pub enum AuthError {
    /// The user name is registered already.
    AlreadyExists,
    /// The user or the session token is unknown.
    NotFound,
    /// A point that the request must carry is absent.
    MissingArgument,
    /// A point of the request does not decode to a point of the curve.
    InvalidArgument,
    /// The answer does not fit, or is no scalar at all.
    Unauthenticated,
    /// The session and the user's public key belong to different variants
    /// of the protocol.
    ProtocolMismatch,
    /// A freshly drawn session token was in use already.
    Internal,
}

/// The classes of failure that the transport tells apart.
#[derive(Clone, Copy, Debug, PartialEq, Eq, Structural)]
pub enum ErrorKind {
    AlreadyExists,
    NotFound,
    InvalidArgument,
    Unauthenticated,
    Internal,
}

impl AuthError {
    /// The class under which the transport reports this failure.
    pub open spec fn spec_kind(self) -> ErrorKind {
        match self {
            AuthError::AlreadyExists => ErrorKind::AlreadyExists,
            AuthError::NotFound => ErrorKind::NotFound,
            AuthError::MissingArgument => ErrorKind::InvalidArgument,
            AuthError::InvalidArgument => ErrorKind::InvalidArgument,
            AuthError::Unauthenticated => ErrorKind::Unauthenticated,
            AuthError::ProtocolMismatch => ErrorKind::Unauthenticated,
            AuthError::Internal => ErrorKind::Internal,
        }
    }

    /// The class under which the transport reports this failure.
    #[verifier::when_used_as_spec(spec_kind)]
    pub fn kind(self) -> (k: ErrorKind)
        ensures
            k == self.spec_kind(),
    {
        match self {
            AuthError::AlreadyExists => ErrorKind::AlreadyExists,
            AuthError::NotFound => ErrorKind::NotFound,
            AuthError::MissingArgument => ErrorKind::InvalidArgument,
            AuthError::InvalidArgument => ErrorKind::InvalidArgument,
            AuthError::Unauthenticated => ErrorKind::Unauthenticated,
            AuthError::ProtocolMismatch => ErrorKind::Unauthenticated,
            AuthError::Internal => ErrorKind::Internal,
        }
    }
}

} // verus!

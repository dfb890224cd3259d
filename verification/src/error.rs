//! The typed reasons for which a fetch or a token verification fails.

use vstd::prelude::*;

verus! {

/// A network or validation error.
///
/// `ConnectionError` and `DecodeError` describe the key-fetch side (the
/// provider was unreachable, or sent a malformed body); the remaining
/// variants describe the token itself, so an embedding application can tell
/// a stale or unreachable key set from an invalid token.
#[derive(Clone, Copy, Debug, PartialEq, Eq, Structural)]
pub enum Error {
    /// Transport or I/O failure reaching the provider.
    ConnectionError,
    /// The provider's response body was malformed.
    DecodeError,
    /// The token names a key-id absent from the current key set.
    InvalidKey,
    /// Signature verification failed for every candidate key, or the
    /// provider rejected the token.
    InvalidToken,
    /// The token was not issued by Google.
    InvalidIssuer,
    /// The token is for a different Google application.
    InvalidAudience,
    /// The user is not a member of the hosted domain(s).
    InvalidHostedDomain,
}

impl Error {
    /// A short description of the error, for messages and logs.
    pub fn describe(&self) -> (r: String)
        ensures
            *self == Error::ConnectionError ==> r@ == "Could not reach the token provider"@,
            *self == Error::DecodeError ==> r@ == "Malformed response from the token provider"@,
            *self == Error::InvalidKey ==> r@ == "Token does not match any known key"@,
            *self == Error::InvalidToken ==> r@ == "Token was not recognized by google"@,
            *self == Error::InvalidIssuer ==> r@ == "Token was not issued by google"@,
            *self == Error::InvalidAudience ==> r@
                == "Token is for a different google application"@,
            *self == Error::InvalidHostedDomain ==> r@
                == "User is not a member of the hosted domain(s)"@,
    {
        match self {
            Error::ConnectionError => "Could not reach the token provider".to_owned(),
            Error::DecodeError => "Malformed response from the token provider".to_owned(),
            Error::InvalidKey => "Token does not match any known key".to_owned(),
            Error::InvalidToken => "Token was not recognized by google".to_owned(),
            Error::InvalidIssuer => "Token was not issued by google".to_owned(),
            Error::InvalidAudience => "Token is for a different google application".to_owned(),
            Error::InvalidHostedDomain => "User is not a member of the hosted domain(s)".to_owned(),
        }
    }
}

} // verus!

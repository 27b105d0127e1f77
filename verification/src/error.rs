//! The errors that requests end in, and the HTTP answer each one gets.

use vstd::prelude::*;

verus! {

/// Why a request failed.
#[derive(Debug, Clone, Copy, PartialEq, Eq, Structural)]
pub enum URLError {
    /// The address to shorten is not an `http` or `https` address.
    MalformedURL,
    /// The database could not be reached or refused the operation.
    Database,
    /// No shortened address is stored under the requested path.
    IncorrectPath,
    /// Another address is already stored under the path that this one gets.
    CollidedURL,
}

/// The message that a malformed address is answered with.
pub open spec fn malformed_message() -> Seq<char> {
    "URL provided was malformed"@
}

impl URLError {
    /// The HTTP status code that answers this error.
    pub open spec fn spec_status(self) -> u16 {
        match self {
            URLError::MalformedURL => 400,
            URLError::Database => 500,
            URLError::IncorrectPath => 404,
            URLError::CollidedURL => 500,
        }
    }

    /// The HTTP status code that answers this error.
    pub fn status_code(&self) -> (r: u16)
        ensures
            r == self.spec_status(),
    {
        match self {
            URLError::MalformedURL => 400,
            URLError::Database => 500,
            URLError::IncorrectPath => 404,
            URLError::CollidedURL => 500,
        }
    }

    /// The text of the `message` field of the answer's JSON body; only a
    /// malformed address gets a body.
    pub fn message(&self) -> (r: Option<String>)
        ensures
            r is Some <==> *self == URLError::MalformedURL,
            r matches Some(m) ==> m@ == malformed_message(),
    {
        match self {
            URLError::MalformedURL => Some(String::from_str("URL provided was malformed")),
            _ => None,
        }
    }
}

} // verus!

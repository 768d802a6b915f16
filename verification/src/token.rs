//! The bearer credential of a request.

use crate::text::{has_prefix, joined, trim_leading, without_leading};
use vstd::prelude::*;

verus! {

/// What an `Authorization` header starts with when it carries a bearer token.
pub const BEARER_PREFIX: &'static str = "Bearer ";

/// The status of the answer to a request without a credential.
pub const UNAUTHORIZED: u16 = 401;

/// The body of the answer to a request without a credential.
pub const TOKEN_NOT_PROVIDED: &'static str = "Token Not Provided";

/// An opaque bearer credential.
#[derive(Clone, Debug, PartialEq, Eq)]
pub struct AuthToken(pub String);

/// The request carried no bearer credential.
#[derive(Clone, Copy, Debug, PartialEq, Eq)]
pub struct NoToken;

impl AuthToken {
    /// The value of the `Authorization` header that carries this token.
    pub fn to_bearer(&self) -> (header: String)
        ensures
            header@ == BEARER_PREFIX@ + self.0@,
    {
        joined(BEARER_PREFIX, self.0.as_str())
    }

    /// The token of an `Authorization` header, where the header is present and
    /// starts with the bearer prefix. The token is what follows every leading
    /// repetition of the prefix.
    pub fn from_header(header: Option<&str>) -> (token: Result<AuthToken, NoToken>)
        ensures
            match header {
                Some(value) if BEARER_PREFIX@.is_prefix_of(value@) => (token matches Ok(found)
                    && found.0@ == without_leading(value@, BEARER_PREFIX@)),
                _ => token is Err,
            },
    {
        match header {
            Some(value) => {
                if has_prefix(value, BEARER_PREFIX) {
                    proof {
                        reveal_strlit("Bearer ");
                    }
                    Ok(AuthToken(trim_leading(value, BEARER_PREFIX).to_owned()))
                } else {
                    Err(NoToken)
                }
            },
            None => Err(NoToken),
        }
    }
}

} // verus!

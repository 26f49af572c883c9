//! The handlers' error type and its HTTP rendering.
use vstd::prelude::*;

verus! {

/// An error a handler answers with: the HTTP status is fixed by the
/// variant, the message is the response body.
#[derive(Debug)]
pub enum HttpError {
    BadRequest(String),
    GatewayTimeout(String),
    Unauthorized(String),
}

impl HttpError {
    /// The HTTP status the variant renders to.
    pub open spec fn spec_status(&self) -> u16 {
        match self {
            HttpError::BadRequest(_) => 400,
            HttpError::GatewayTimeout(_) => 504,
            HttpError::Unauthorized(_) => 401,
        }
    }

    /// The response body.
    pub open spec fn spec_message(&self) -> Seq<char> {
        match self {
            HttpError::BadRequest(m) => m@,
            HttpError::GatewayTimeout(m) => m@,
            HttpError::Unauthorized(m) => m@,
        }
    }

    /// The HTTP status the variant renders to.
    pub fn status_code(&self) -> (r: u16)
        ensures
            r == self.spec_status(),
    {
        match self {
            HttpError::BadRequest(_) => 400,
            HttpError::GatewayTimeout(_) => 504,
            HttpError::Unauthorized(_) => 401,
        }
    }

    /// The response body.
    pub fn message(&self) -> (r: &String)
        ensures
            r@ == self.spec_message(),
    {
        match self {
            HttpError::BadRequest(m) => m,
            HttpError::GatewayTimeout(m) => m,
            HttpError::Unauthorized(m) => m,
        }
    }
}

} // verus!

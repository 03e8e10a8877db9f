use vstd::prelude::*;

verus! {

/// Errors of the service.
///
/// They mix server-side and client-side conditions; at the server's boundary
/// each is turned into a status code by [`Error::status_code`].
#[derive(Debug, Clone)]
pub enum Error {
    /// An HTTP request got no response from the server
    NoResponse,
    /// The requested resource (path or object) does not exist
    NotFound(String),
    /// The incoming request is malformed or does not match what the server expects
    BadRequest(String),
    /// Something went wrong server-side
    InternalServerError(String),
    /// A stream was closed before the message was complete
    ConnectionReset,
}

/// The result type used throughout the crate.
pub type Result<T> = core::result::Result<T, Error>;

/// The status code that an error maps to at the server's boundary.
pub open spec fn error_status(e: Error) -> u16 {
    match e {
        Error::NotFound(_) => 404,
        Error::BadRequest(_) => 400,
        _ => 500,
    }
}

impl Error {
    /// Status code of the response sent for this error: 404 for a missing
    /// resource, 400 for a malformed request, 500 for anything else.
    pub fn status_code(&self) -> (r: u16)
        ensures
            r == error_status(*self),
    {
        match self {
            Error::NotFound(_) => 404,
            Error::BadRequest(_) => 400,
            _ => 500,
        }
    }

    /// A human readable description of the error.
    pub fn message(&self) -> (r: String)
        ensures
            match *self {
                Error::NotFound(m) => r@ == "Not found: "@ + m@,
                Error::BadRequest(m) => r@ == "Bad Request: "@ + m@,
                Error::InternalServerError(m) => r@ == "InternalServerError: "@ + m@,
                Error::NoResponse => r@ == "No response from server"@,
                Error::ConnectionReset => r@ == "ConnectionReset"@,
            },
    {
        match self {
            Error::NoResponse => String::from_str("No response from server"),
            Error::NotFound(m) => String::from_str("Not found: ").concat(m.as_str()),
            Error::BadRequest(m) => String::from_str("Bad Request: ").concat(m.as_str()),
            Error::InternalServerError(m) => String::from_str("InternalServerError: ").concat(
                m.as_str(),
            ),
            Error::ConnectionReset => String::from_str("ConnectionReset"),
        }
    }
}

} // verus!

use vstd::prelude::*;
use crate::decimal::{decimal, push_decimal};
use vstd::string::to_string_from_display_ensures;

verus! {

#[verifier::external_type_specification]
#[verifier::external_body]
pub struct ExIoError(std::io::Error);

/// Why a request or a read of the client failed.
#[derive(Debug)]
pub enum Error {
    /// The server answered with a status that is not a success (2xx).
    HttpFailed { status: u16 },
    /// Reading the response body failed.
    IO(std::io::Error),
    /// The HTTP client could not send the request or receive the response; the
    /// underlying error is carried boxed inside an `std::io::Error` of kind `Other`.
    External(std::io::Error),
}

/// The result type of the client.
pub type Result<T> = std::result::Result<T, Error>;

/// The text shown for a failed HTTP status.
pub open spec fn http_failed_text(status: u16) -> Seq<char> {
    "HTTP requests failed with status: "@ + decimal(status as nat)
}

impl Error {
    /// The human-readable description of the error: for a failed status, the
    /// status in decimal; otherwise the text that the inner error displays.
    pub fn to_string(&self) -> (text: String)
        ensures
            self matches Error::HttpFailed { status } ==> text@ == http_failed_text(*status),
            self matches Error::HttpFailed { status } ==> text@ == "HTTP requests failed with status: "@
                + decimal(*status as nat),
            self matches Error::IO(e) ==> to_string_from_display_ensures(e, text),
            self matches Error::External(e) ==> to_string_from_display_ensures(e, text),
    {
        match self {
            Error::HttpFailed { status } => {
                let mut text = String::from_str("HTTP requests failed with status: ");
                push_decimal(&mut text, *status as u64);
                text
            },
            Error::IO(io) => io.to_string(),
            Error::External(external) => external.to_string(),
        }
    }
}

impl From<std::io::Error> for Error {
    fn from(value: std::io::Error) -> (res: Self) {
        Error::IO(value)
    }
}

impl vstd::std_specs::convert::FromSpecImpl<std::io::Error> for Error {
    open spec fn obeys_from_spec() -> bool {
        true
    }

    open spec fn from_spec(value: std::io::Error) -> Error {
        Error::IO(value)
    }
}

} // verus!

//! The error type of this crate.

use vstd::prelude::*;

use crate::response::{Payload, Table};

verus! {

/// Error of the HTTP client that performs requests to the jolpica-f1 API.
#[verifier::external_type_specification]
#[verifier::external_body]
pub struct ExHttpError(ureq::Error);

/// Error of the standard library's I/O operations.
#[verifier::external_type_specification]
#[verifier::external_body]
pub struct ExIoError(std::io::Error);

/// Error of the JSON parser.
#[verifier::external_type_specification]
#[verifier::external_body]
pub struct ExJsonError(serde_json::Error);

/// Error of the YAML parser.
#[verifier::external_type_specification]
#[verifier::external_body]
pub struct ExYamlError(serde_yaml::Error);

/// An error that may occur while processing a request to the jolpica-f1 API, via the provided
/// family of `get_*` functions, or while processing the responses.
///
/// These may be underlying HTTP errors, represented by [`F1Error::Http`], errors parsing the JSON
/// response, represented by [`F1Error::Parse`], or errors due to unmet restrictions imposed on the
/// response, e.g. a request supporting only single-page responses resulted in a multi-page
/// response, represented by [`F1Error::MultiPage`].
#[derive(Debug)]
pub enum F1Error {
    /// Underlying HTTP error, passing through the HTTP client's error.
    Http(ureq::Error),
    /// Forwarded I/O error, e.g. while reading a response body or a data file.
    Io(std::io::Error),
    /// Error parsing the JSON response into one of the response types of this crate.
    Parse(serde_json::Error),
    /// Error parsing a YAML data file into one of the types of this crate.
    YamlParse(serde_yaml::Error),
    /// A request by a method supporting only single-page responses resulted in a multi-page one.
    MultiPage,
    /// A request resulted in a response that did not contain the expected table variant.
    BadTableVariant,
    /// A request resulted in a response that did not contain the expected payload variant.
    BadPayloadVariant,
    /// A request resulted in a response that did not contain any of the expected elements.
    NotFound,
    /// A request resulted in a response that contained more than the expected number of elements.
    TooMany,
    /// A generic error for when unexpected data was found during processing of a response.
    UnexpectedData(String),
    /// An empty list of responses was given where at least one was expected.
    EmptyResponseList,
    /// Responses that were expected to describe the same request did not.
    BadResponseInfo(String),
    /// The pages of a multi-page response did not follow each other as expected.
    BadPagination(String),
    /// A multi-page response had more pages than allowed: the page count, then the maximum.
    ExceededMaxPageCount((usize, usize)),
    /// Every attempt of a request failed with an HTTP error: the number of retries made, and the
    /// last error.
    HttpRetries((usize, ureq::Error)),
}

impl From<ureq::Error> for F1Error {
    /// An HTTP error of the client.
    fn from(error: ureq::Error) -> (r: F1Error) {
        F1Error::Http(error)
    }
}

impl vstd::std_specs::convert::FromSpecImpl<ureq::Error> for F1Error {
    open spec fn obeys_from_spec() -> bool {
        true
    }

    open spec fn from_spec(error: ureq::Error) -> F1Error {
        F1Error::Http(error)
    }
}

impl From<std::io::Error> for F1Error {
    /// An I/O error.
    fn from(error: std::io::Error) -> (r: F1Error) {
        F1Error::Io(error)
    }
}

impl vstd::std_specs::convert::FromSpecImpl<std::io::Error> for F1Error {
    open spec fn obeys_from_spec() -> bool {
        true
    }

    open spec fn from_spec(error: std::io::Error) -> F1Error {
        F1Error::Io(error)
    }
}

impl From<serde_json::Error> for F1Error {
    /// A JSON parsing error.
    fn from(error: serde_json::Error) -> (r: F1Error) {
        F1Error::Parse(error)
    }
}

impl vstd::std_specs::convert::FromSpecImpl<serde_json::Error> for F1Error {
    open spec fn obeys_from_spec() -> bool {
        true
    }

    open spec fn from_spec(error: serde_json::Error) -> F1Error {
        F1Error::Parse(error)
    }
}

impl From<serde_yaml::Error> for F1Error {
    /// A YAML parsing error.
    fn from(error: serde_yaml::Error) -> (r: F1Error) {
        F1Error::YamlParse(error)
    }
}

impl vstd::std_specs::convert::FromSpecImpl<serde_yaml::Error> for F1Error {
    open spec fn obeys_from_spec() -> bool {
        true
    }

    open spec fn from_spec(error: serde_yaml::Error) -> F1Error {
        F1Error::YamlParse(error)
    }
}

impl From<Table> for F1Error {
    /// A table of another variant than expected.
    fn from(_table: Table) -> (r: F1Error) {
        F1Error::BadTableVariant
    }
}

impl vstd::std_specs::convert::FromSpecImpl<Table> for F1Error {
    open spec fn obeys_from_spec() -> bool {
        true
    }

    open spec fn from_spec(table: Table) -> F1Error {
        F1Error::BadTableVariant
    }
}

impl From<Payload> for F1Error {
    /// A payload of another variant than expected.
    fn from(_payload: Payload) -> (r: F1Error) {
        F1Error::BadPayloadVariant
    }
}

impl vstd::std_specs::convert::FromSpecImpl<Payload> for F1Error {
    open spec fn obeys_from_spec() -> bool {
        true
    }

    open spec fn from_spec(payload: Payload) -> F1Error {
        F1Error::BadPayloadVariant
    }
}

/// Convenience type alias for results with the error type of this crate.
pub type Result<T> = std::result::Result<T, F1Error>;

} // verus!

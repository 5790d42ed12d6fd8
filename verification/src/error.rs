//! The library's error taxonomy.

use vstd::prelude::*;
use vstd::string::StringExecFns;

verus! {

/// Everything that can go wrong between a query request and its response.
#[derive(Debug)]
pub enum Error {
    /// The store could not be reached.
    ClickHouseConnection(String),
    /// The store rejected or failed a query.
    ClickHouseQuery(String),
    /// Configuration could not be loaded or understood.
    Config(String),
    /// A query parameter was outside what the contract allows.
    InvalidParameter(String),
    /// A named tool or resource does not exist.
    NotFound(String),
    /// An unspecified internal failure.
    Internal(String),
    /// A payload could not be serialized or deserialized.
    Serialization(String),
}

/// The one-line description of an error: a fixed prefix naming the
/// category, then the detail text.
pub open spec fn error_message(e: &Error) -> Seq<char> {
    match e {
        Error::ClickHouseConnection(m) => "ClickHouse connection error: "@ + m@,
        Error::ClickHouseQuery(m) => "ClickHouse query error: "@ + m@,
        Error::Config(m) => "Configuration error: "@ + m@,
        Error::InvalidParameter(m) => "Invalid query parameter: "@ + m@,
        Error::NotFound(m) => "Resource not found: "@ + m@,
        Error::Internal(m) => "Internal error: "@ + m@,
        Error::Serialization(m) => "Serialization error: "@ + m@,
    }
}

impl Error {
    /// Whether this is the not-found condition.
    pub fn is_not_found(&self) -> (r: bool)
        ensures
            r == (self is NotFound),
    {
        matches!(self, Error::NotFound(_))
    }

    /// Whether this is the store-unreachable condition.
    pub fn is_connection_error(&self) -> (r: bool)
        ensures
            r == (self is ClickHouseConnection),
    {
        matches!(self, Error::ClickHouseConnection(_))
    }

    /// The one-line description of this error.
    pub fn message(&self) -> (r: String)
        ensures
            r@ == error_message(self),
    {
        match self {
            Error::ClickHouseConnection(m) => {
                "ClickHouse connection error: ".to_owned().concat(m.as_str())
            },
            Error::ClickHouseQuery(m) => "ClickHouse query error: ".to_owned().concat(m.as_str()),
            Error::Config(m) => "Configuration error: ".to_owned().concat(m.as_str()),
            Error::InvalidParameter(m) => {
                "Invalid query parameter: ".to_owned().concat(m.as_str())
            },
            Error::NotFound(m) => "Resource not found: ".to_owned().concat(m.as_str()),
            Error::Internal(m) => "Internal error: ".to_owned().concat(m.as_str()),
            Error::Serialization(m) => "Serialization error: ".to_owned().concat(m.as_str()),
        }
    }
}

} // verus!

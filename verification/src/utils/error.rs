//! Error type of the library.

use crate::utils::text::joined;
use vstd::prelude::*;

verus! {

/// What can go wrong while sites are probed.
#[derive(Debug)]
pub enum SleuthError {
    /// A transport failed: network, navigation or timeout. Holds the cause.
    Http(String),
    /// Reading or writing failed. Holds the cause.
    Io(String),
    /// The configuration is unusable.
    Config(String),
    /// A site description is unusable.
    Site(String),
    /// An input is malformed.
    Validation(String),
    /// A request method other than HEAD or GET was asked for. Holds the method.
    UnsupportedMethod(String),
    /// A reserved feature is not available yet. Holds the feature.
    NotImplemented(String),
    /// Anything else.
    Unknown(String),
}

impl SleuthError {
    /// The message of the error as a sequence of characters.
    pub open spec fn message(self) -> Seq<char> {
        match self {
            SleuthError::Http(cause) => "HTTP error: "@ + cause@,
            SleuthError::Io(cause) => "IO error: "@ + cause@,
            SleuthError::Config(what) => "Configuration error: "@ + what@,
            SleuthError::Site(what) => "Site error: "@ + what@,
            SleuthError::Validation(what) => "Validation error: "@ + what@,
            SleuthError::UnsupportedMethod(method) => "Unsupported HTTP method: "@ + method@,
            SleuthError::NotImplemented(feature) => feature@ + " not yet implemented"@,
            SleuthError::Unknown(what) => "Unknown error: "@ + what@,
        }
    }

    /// The message of the error.
    pub fn to_string(&self) -> (r: String)
        ensures
            r@ == self.message(),
    {
        match self {
            SleuthError::Http(cause) => joined("HTTP error: ", cause.as_str()),
            SleuthError::Io(cause) => joined("IO error: ", cause.as_str()),
            SleuthError::Config(what) => joined("Configuration error: ", what.as_str()),
            SleuthError::Site(what) => joined("Site error: ", what.as_str()),
            SleuthError::Validation(what) => joined("Validation error: ", what.as_str()),
            SleuthError::UnsupportedMethod(method) => joined(
                "Unsupported HTTP method: ",
                method.as_str(),
            ),
            SleuthError::NotImplemented(feature) => joined(
                feature.as_str(),
                " not yet implemented",
            ),
            SleuthError::Unknown(what) => joined("Unknown error: ", what.as_str()),
        }
    }
}

} // verus!

//! The transport abstraction: what a probe is sent with.

pub mod browser;
pub mod http;
pub mod tor;
pub mod trait_impl;

pub use trait_impl::{Request, RequestResponse};

use crate::utils::error::SleuthError;
use vstd::prelude::*;

verus! {

/// Seconds that the plain transport gets for a request when the caller
/// brings no transport of its own.
pub const DEFAULT_TIMEOUT_SECS: u64 = 10;

/// Seconds that the browser gets for a probe of the second pass.
pub const VERIFY_TIMEOUT_SECS: u64 = 30;

/// Which transport is asked for.
#[derive(Debug, Clone, Copy, PartialEq, Eq, Structural)]
pub enum RequestType {
    /// The plain HTTP client.
    Http,
    /// The headless browser, which runs the scripts of a page.
    Browser,
    /// The anonymized transport. Reserved; not available.
    Tor,
}

/// The settings of a transport that can be built.
#[derive(Debug)]
pub enum Transport {
    /// The plain HTTP client with its settings.
    Http(http::HttpRequest),
    /// The headless browser with its settings.
    Browser(browser::BrowserRequest),
}

/// Selects a transport and its settings. The anonymized transport is not
/// available and is always refused.
pub fn create_request(request_type: RequestType, timeout_secs: u64) -> (r: Result<
    Transport,
    SleuthError,
>)
    ensures
        match request_type {
            RequestType::Http => r matches Ok(Transport::Http(settings))
                && settings.timeout_secs == timeout_secs && settings.user_agent@
                == http::default_user_agent(),
            RequestType::Browser => r matches Ok(Transport::Browser(settings))
                && settings.timeout_secs == timeout_secs,
            RequestType::Tor => r matches Err(SleuthError::NotImplemented(feature)) && feature@
                == "Tor"@,
        },
{
    match request_type {
        RequestType::Http => match http::HttpRequest::new(timeout_secs) {
            Ok(settings) => Ok(Transport::Http(settings)),
            Err(e) => Err(e),
        },
        RequestType::Browser => match browser::BrowserRequest::new(timeout_secs) {
            Ok(settings) => Ok(Transport::Browser(settings)),
            Err(e) => Err(e),
        },
        RequestType::Tor => Err(SleuthError::NotImplemented("Tor".to_owned())),
    }
}

} // verus!

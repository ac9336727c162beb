//! Settings of the rendering transport, and the shape of its answers.

use crate::request::trait_impl::RequestResponse;
use crate::utils::error::SleuthError;
use vstd::prelude::*;

verus! {

/// Milliseconds that the rendering transport waits after navigation, so that
/// the scripts of the page can finish.
pub const SETTLE_MILLIS: u64 = 2000;

/// The status code that a rendered page is reported with. The browser does
/// not show the real one.
pub const RENDERED_STATUS: u16 = 200;

/// Settings of the rendering transport.
#[derive(Debug)]
pub struct BrowserRequest {
    /// Seconds after which a navigation is given up.
    pub timeout_secs: u64,
}

impl BrowserRequest {
    /// Settings with the given timeout.
    pub fn new(timeout_secs: u64) -> (r: Result<BrowserRequest, SleuthError>)
        ensures
            r matches Ok(settings) && settings.timeout_secs == timeout_secs,
    {
        Ok(BrowserRequest { timeout_secs })
    }

    /// The response for a page that was loaded and rendered: the rendered
    /// document as the body, and no headers.
    pub fn rendered(document: String) -> (r: RequestResponse)
        ensures
            r.status_code == RENDERED_STATUS,
            r.body == Some(document),
            r.headers@.len() == 0,
    {
        RequestResponse::with_body(RENDERED_STATUS, document)
    }
}

} // verus!

//! Settings of the plain HTTP transport.

use crate::utils::error::SleuthError;
use vstd::prelude::*;

verus! {

/// The user agent that the plain transport sends unless told otherwise.
pub open spec fn default_user_agent() -> Seq<char> {
    "sleuth/0.0.1"@
}

/// Settings of the plain HTTP transport: how long a request may take and
/// which user agent it names.
#[derive(Debug)]
pub struct HttpRequest {
    /// Seconds after which a request is given up.
    pub timeout_secs: u64,
    /// The user agent to send.
    pub user_agent: String,
}

impl HttpRequest {
    /// Settings with the given timeout and the library's own user agent.
    pub fn new(timeout_secs: u64) -> (r: Result<HttpRequest, SleuthError>)
        ensures
            r matches Ok(settings) && settings.timeout_secs == timeout_secs && settings.user_agent@
                == default_user_agent(),
    {
        Ok(HttpRequest { timeout_secs, user_agent: "sleuth/0.0.1".to_owned() })
    }

    /// Settings with the given timeout and user agent.
    pub fn with_user_agent(timeout_secs: u64, user_agent: &str) -> (r: Result<
        HttpRequest,
        SleuthError,
    >)
        ensures
            r matches Ok(settings) && settings.timeout_secs == timeout_secs && settings.user_agent@
                == user_agent@,
    {
        Ok(HttpRequest { timeout_secs, user_agent: user_agent.to_owned() })
    }
}

} // verus!

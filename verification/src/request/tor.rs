//! The anonymized transport. Reserved: it cannot be built, and it refuses
//! every request.

use crate::request::trait_impl::{Request, RequestResponse};
use crate::utils::error::SleuthError;
use vstd::prelude::*;

verus! {

/// The anonymized transport.
pub struct TorRequest {}

/// The refusal that the anonymized transport answers with.
pub open spec fn is_tor_refusal(r: Result<RequestResponse, SleuthError>) -> bool {
    r matches Err(SleuthError::NotImplemented(feature)) && feature@ == "Tor support"@
}

impl TorRequest {
    /// Always refused: the transport is not available.
    pub fn new() -> (r: Result<TorRequest, SleuthError>)
        ensures
            r matches Err(SleuthError::NotImplemented(feature)) && feature@ == "Tor support"@,
    {
        Err(SleuthError::NotImplemented("Tor support".to_owned()))
    }
}

impl Request for TorRequest {
    fn head(&self, _url: &str) -> (r: Result<RequestResponse, SleuthError>)
        ensures
            is_tor_refusal(r),
    {
        Err(SleuthError::NotImplemented("Tor support".to_owned()))
    }

    fn get(&self, _url: &str) -> (r: Result<RequestResponse, SleuthError>)
        ensures
            is_tor_refusal(r),
    {
        Err(SleuthError::NotImplemented("Tor support".to_owned()))
    }
}

} // verus!

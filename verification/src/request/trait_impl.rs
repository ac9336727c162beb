//! Responses, and the interface that every transport offers.

use crate::utils::error::SleuthError;
use crate::utils::text::{same_text, to_uppercase, uppercase};
use vstd::prelude::*;

verus! {

/// Response from a request.
#[derive(Debug, Clone)]
pub struct RequestResponse {
    /// The status code of the answer.
    pub status_code: u16,
    /// The decoded body. A HEAD request brings none.
    pub body: Option<String>,
    /// The headers of the answer, in order, as name and value.
    pub headers: Vec<(String, String)>,
}

impl RequestResponse {
    /// The characters of the body, if there is one.
    pub open spec fn body_text(&self) -> Option<Seq<char>> {
        match self.body {
            Some(text) => Some(text@),
            None => None,
        }
    }

    /// A response without body and headers.
    pub fn new(status_code: u16) -> (r: RequestResponse)
        ensures
            r.status_code == status_code,
            r.body is None,
            r.headers@.len() == 0,
    {
        RequestResponse { status_code, body: None, headers: Vec::new() }
    }

    /// A response with a body and without headers.
    pub fn with_body(status_code: u16, body: String) -> (r: RequestResponse)
        ensures
            r.status_code == status_code,
            r.body == Some(body),
            r.headers@.len() == 0,
    {
        RequestResponse { status_code, body: Some(body), headers: Vec::new() }
    }

    /// The response to a HEAD request: status and headers, never a body.
    pub fn for_head(status_code: u16, headers: Vec<(String, String)>) -> (r: RequestResponse)
        ensures
            r.status_code == status_code,
            r.body is None,
            r.headers == headers,
    {
        RequestResponse { status_code, body: None, headers }
    }

    /// The response to a GET request: status, headers, and the body if it
    /// could be decoded.
    pub fn for_get(status_code: u16, headers: Vec<(String, String)>, body: Option<String>) -> (r:
        RequestResponse)
        ensures
            r.status_code == status_code,
            r.body == body,
            r.headers == headers,
    {
        RequestResponse { status_code, body, headers }
    }

    /// The body as a string slice, if there is one.
    pub fn body_str(&self) -> (r: Option<&str>)
        ensures
            r is Some <==> self.body is Some,
            r matches Some(text) ==> Some(text@) == self.body_text(),
    {
        match &self.body {
            Some(text) => Some(text.as_str()),
            None => None,
        }
    }
}

/// The request methods that a transport offers.
#[derive(Debug, Clone, Copy, PartialEq, Eq, Structural)]
pub enum Method {
    /// HEAD: status and headers only.
    Head,
    /// GET: status, headers and body.
    Get,
}

/// The method that a word in capital letters spells, if it spells one.
pub open spec fn method_spelled(word: Seq<char>) -> Option<Method> {
    if word == "HEAD"@ {
        Some(Method::Head)
    } else if word == "GET"@ {
        Some(Method::Get)
    } else {
        None
    }
}

/// The method that a word names, case aside, if it names one.
pub open spec fn method_named(word: Seq<char>) -> Option<Method> {
    method_spelled(uppercase(word))
}

/// The method that a word in capital letters spells, if it spells one.
pub fn method_of(word: &str) -> (r: Option<Method>)
    ensures
        r == method_spelled(word@),
{
    if same_text(word, "HEAD") {
        Some(Method::Head)
    } else if same_text(word, "GET") {
        Some(Method::Get)
    } else {
        None
    }
}

/// Reads a request method from a word, case aside. Anything but HEAD and GET
/// is refused, with the word in the error.
pub fn parse_method(method: &str) -> (r: Result<Method, SleuthError>)
    ensures
        match method_named(method@) {
            Some(m) => r == Ok::<Method, SleuthError>(m),
            None => r matches Err(SleuthError::UnsupportedMethod(word)) && word@ == method@,
        },
{
    let upper = to_uppercase(method);
    match method_of(upper.as_str()) {
        Some(m) => Ok(m),
        None => Err(SleuthError::UnsupportedMethod(method.to_owned())),
    }
}

/// A transport: something that can send a HEAD or a GET request to an
/// address. What comes back depends on the network, so nothing is promised
/// of it.
pub trait Request: Send + Sync {
    /// Makes a HEAD request.
    fn head(&self, url: &str) -> Result<RequestResponse, SleuthError>;

    /// Makes a GET request.
    fn get(&self, url: &str) -> Result<RequestResponse, SleuthError>;

    /// Makes a request with the named method: whatever `head` or `get`
    /// answers for the address, or a refusal of any other method.
    fn request(&self, method: &str, url: &str) -> (r: Result<RequestResponse, SleuthError>)
        default_ensures
            match method_named(method@) {
                Some(Method::Head) => call_ensures(Self::head, (self, url), r),
                Some(Method::Get) => call_ensures(Self::get, (self, url), r),
                None => r matches Err(SleuthError::UnsupportedMethod(word)) && word@ == method@,
            },
    {
        match parse_method(method) {
            Ok(Method::Head) => self.head(url),
            Ok(Method::Get) => self.get(url),
            Err(e) => Err(e),
        }
    }
}

} // verus!

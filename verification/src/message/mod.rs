//! HTTP messages as the proxy sees them.
pub mod headers;
pub mod uri;

use crate::app::classify;
use crate::source::Source;
use http::header::{HeaderMap, HeaderValue};
use uri::Uri;
use vstd::prelude::*;
use vstd::string::StringExecFns;

verus! {

/// A version of HTTP.
#[derive(Clone, Copy, Debug, PartialEq, Eq, Hash, Structural)]
pub enum Version {
    Http09,
    Http10,
    Http11,
    Http2,
}

/// A request method, by its (case-sensitive) token.
#[derive(Debug, PartialEq, Eq, Hash)]
pub struct Method {
    pub token: String,
}

impl Method {
    /// The method with a given token.
    pub fn new(token: &str) -> (m: Method)
        ensures
            m.token@ == token@,
    {
        Method { token: String::from_str(token) }
    }

    /// Compares two methods.
    pub fn is_same(&self, other: &Method) -> (r: bool)
        ensures
            r == (self.token@ == other.token@),
    {
        self.token == other.token
    }
}

impl Clone for Method {
    fn clone(&self) -> (r: Self)
        ensures
            r == *self,
    {
        Method { token: self.token.clone() }
    }
}

/// A response status code, from 100 up to 599.
#[derive(Clone, Copy, Debug, PartialEq, Eq, Hash, Structural)]
pub struct StatusCode {
    code: u16,
}

impl StatusCode {
    /// The number of the status code.
    pub closed spec fn number(self) -> u16 {
        self.code
    }

    #[verifier::type_invariant]
    closed spec fn in_range(self) -> bool {
        100 <= self.code < 600
    }

    /// The status code with a given number, if it is one.
    pub fn from_u16(code: u16) -> (r: Option<StatusCode>)
        ensures
            r is Some <==> 100 <= code < 600,
            r matches Some(s) ==> s.number() == code,
    {
        if code < 100 || code >= 600 {
            None
        } else {
            Some(StatusCode { code })
        }
    }

    /// `500 Internal Server Error`
    pub fn internal_server_error() -> (s: StatusCode)
        ensures
            s.number() == 500,
    {
        StatusCode { code: 500 }
    }

    /// `503 Service Unavailable`
    pub fn service_unavailable() -> (s: StatusCode)
        ensures
            s.number() == 503,
    {
        StatusCode { code: 503 }
    }

    /// The number of the status code.
    pub fn as_u16(&self) -> (code: u16)
        ensures
            code == self.number(),
            100 <= code < 600,
    {
        proof {
            use_type_invariant(self);
        }
        self.code
    }

    /// Whether the status blames the server.
    pub fn is_server_error(&self) -> (r: bool)
        ensures
            r == (500 <= self.number() < 600),
    {
        600 > self.code && self.code >= 500
    }
}

/// What the proxy has noted about a request, besides what the client sent.
pub struct Extensions {
    /// The connection on which the request came in.
    pub source: Option<Source>,
    /// How the response is going to be classified.
    pub classify: Option<classify::Response>,
    /// When the request was first sent, if it may be retried.
    pub first_request_started_at: Option<std::time::Instant>,
}

impl Extensions {
    /// No notes.
    pub fn new() -> (e: Extensions)
        ensures
            e == (Extensions { source: None, classify: None, first_request_started_at: None }),
    {
        Extensions { source: None, classify: None, first_request_started_at: None }
    }
}

impl Clone for Extensions {
    fn clone(&self) -> (r: Self)
        ensures
            r == *self,
    {
        Extensions {
            source: match &self.source {
                Some(source) => Some(source.clone()),
                None => None,
            },
            classify: match &self.classify {
                Some(classify) => Some(classify.clone()),
                None => None,
            },
            first_request_started_at: self.first_request_started_at,
        }
    }
}

/// A request.
pub struct Request<B> {
    pub method: Method,
    pub uri: Uri,
    pub version: Version,
    pub headers: HeaderMap<HeaderValue>,
    pub extensions: Extensions,
    pub body: B,
}

/// A response.
pub struct Response<B> {
    pub status: StatusCode,
    pub version: Version,
    pub headers: HeaderMap<HeaderValue>,
    pub body: B,
}

/// A number is a status code exactly if it has three digits and the first of them is 1 to 5.
pub proof fn status_codes_are_numbered(code: u16, r: Option<StatusCode>)
    requires
        call_ensures(StatusCode::from_u16, (code,), r),
    ensures
        code < 100 ==> r is None,
        100 <= code <= 599 ==> (r matches Some(s) && s.number() == code),
        code > 599 ==> r is None,
{
}

/// A status blames the server exactly if its number begins with a 5, so that two statuses with
/// the same first digit agree on it.
pub proof fn server_errors_begin_with_five(
    a: StatusCode,
    b: StatusCode,
    x: u16,
    y: u16,
    r: bool,
    s: bool,
)
    requires
        call_ensures(StatusCode::as_u16, (&a,), x),
        call_ensures(StatusCode::as_u16, (&b,), y),
        call_ensures(StatusCode::is_server_error, (&a,), r),
        call_ensures(StatusCode::is_server_error, (&b,), s),
    ensures
        x == a.number(),
        r <==> x / 100 == 5,
        x / 100 == y / 100 ==> r == s,
{
}

/// The statuses that the proxy answers with are 500 and 503.
pub proof fn error_statuses_are_numbered(internal: StatusCode, unavailable: StatusCode)
    requires
        call_ensures(StatusCode::internal_server_error, (), internal),
        call_ensures(StatusCode::service_unavailable, (), unavailable),
    ensures
        internal.number() == 500,
        unavailable.number() == 503,
{
}

/// Methods are the same exactly if their tokens are, in the case of letters too.
pub proof fn methods_are_told_by_their_token(a: Method, b: Method, r: bool)
    requires
        call_ensures(Method::is_same, (&a, &b), r),
    ensures
        a.token@ == b.token@ ==> r,
        a.token@ != b.token@ ==> !r,
{
}

} // verus!

//! The messages in which the control plane describes destinations, as far as the proxy reads
//! them.
use crate::labels::Labels;
use crate::message::Method;
use crate::time::Duration;
use vstd::prelude::*;

verus! {

/// A length of time in a message: if it is negative, by how much.
pub type SignedDuration = Result<Duration, Duration>;

/// Asks for the profile of a destination.
#[derive(Debug, PartialEq, Eq)]
pub struct GetDestination {
    pub scheme: String,
    pub path: String,
}

/// The profile of a destination.
pub struct DestinationProfile {
    pub routes: Vec<Route>,
    pub retry_budget: Option<RetryBudget>,
    pub default_retry_timeout: Option<SignedDuration>,
}

/// A route in a profile.
pub struct Route {
    pub condition: Option<RequestMatch>,
    pub response_classes: Vec<ResponseClass>,
    pub metrics_labels: Labels,
    pub is_retryable: bool,
    pub retry_timeout: Option<SignedDuration>,
}

/// A condition on requests, which may be left out.
pub struct RequestMatch {
    pub match_: Option<RequestCondition>,
}

/// A condition on requests.
pub enum RequestCondition {
    /// Every one of the conditions holds.
    All(Vec<RequestMatch>),
    /// At least one of the conditions holds.
    Any(Vec<RequestMatch>),
    /// The condition does not hold.
    Not(Box<RequestMatch>),
    /// The path has a match for the regular expression.
    Path(String),
    /// The request is made with the method.
    Method(HttpMethod),
}

/// A class of responses.
pub struct ResponseClass {
    pub condition: Option<ResponseMatch>,
    pub is_failure: bool,
}

/// A condition on responses, which may be left out.
pub struct ResponseMatch {
    pub match_: Option<ResponseCondition>,
}

/// A condition on responses.
pub enum ResponseCondition {
    /// Every one of the conditions holds.
    All(Vec<ResponseMatch>),
    /// At least one of the conditions holds.
    Any(Vec<ResponseMatch>),
    /// The condition does not hold.
    Not(Box<ResponseMatch>),
    /// The status lies in the range.
    Status(StatusRange),
}

/// How much may be retried.
#[derive(Clone, Copy, Debug, PartialEq, Eq)]
pub struct RetryBudget {
    /// How many retries there may be for each request, as the bits of a single-precision
    /// floating-point number.
    pub retry_ratio_bits: u32,
    pub min_retries_per_second: u32,
    pub ttl: Option<SignedDuration>,
}

/// The method that a message names, if it names one that is known.
pub struct HttpMethod {
    pub type_: Option<MethodType>,
}

/// How a message names a method.
pub struct MethodType {
    /// The method, unless there is none of that name.
    pub method: Option<Method>,
}

/// A range of status codes.
#[derive(Clone, Copy, Debug, PartialEq, Eq)]
pub struct StatusRange {
    pub min: u32,
    pub max: u32,
}

} // verus!

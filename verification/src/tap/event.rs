//! What a tap reports.
use crate::labels::Labels;
use crate::message::uri::Uri;
use crate::message::{Method, StatusCode};
use crate::source::Source;
use crate::transport::Target;
use std::time::Instant;
use vstd::prelude::*;

verus! {

/// The direction of traffic.
#[derive(Clone, Copy, Debug, PartialEq, Eq, Structural)]
pub enum Direction {
    In,
    Out,
}

/// The endpoint that a request is sent to.
#[derive(Debug)]
pub struct Endpoint<C> {
    pub direction: Direction,
    pub labels: Labels,
    pub target: Target<C>,
}

/// A request that went by.
#[derive(Debug)]
pub struct Request<C> {
    pub source: Source,
    pub endpoint: Endpoint<C>,
    pub method: Method,
    pub uri: Uri,
}

/// A response that went by.
#[derive(Debug)]
pub struct Response<C> {
    pub request: Request<C>,
    pub status: StatusCode,
}

/// Something that happened to a request or a response.
#[derive(Debug)]
pub enum Event<C> {
    StreamRequestOpen(Request<C>),
    StreamRequestFail(Request<C>, StreamRequestFail),
    StreamRequestEnd(Request<C>, StreamRequestEnd),
    StreamResponseOpen(Response<C>, StreamResponseOpen),
    StreamResponseFail(Response<C>, StreamResponseFail),
    StreamResponseEnd(Response<C>, StreamResponseEnd),
}

/// A request failed, with an HTTP/2 error code.
#[derive(Debug)]
pub struct StreamRequestFail {
    pub request_open_at: Instant,
    pub request_fail_at: Instant,
    pub error: u32,
}

/// A request ended.
#[derive(Debug)]
pub struct StreamRequestEnd {
    pub request_open_at: Instant,
    pub request_end_at: Instant,
}

/// A response began.
#[derive(Debug)]
pub struct StreamResponseOpen {
    pub request_open_at: Instant,
    pub response_open_at: Instant,
}

/// A response failed, with an HTTP/2 error code.
#[derive(Debug)]
pub struct StreamResponseFail {
    pub request_open_at: Instant,
    pub response_open_at: Instant,
    pub response_first_frame_at: Option<Instant>,
    pub response_fail_at: Instant,
    pub error: u32,
}

/// A response ended.
#[derive(Debug)]
pub struct StreamResponseEnd {
    pub request_open_at: Instant,
    pub response_open_at: Instant,
    pub response_first_frame_at: Instant,
    pub response_end_at: Instant,
    pub grpc_status: Option<u32>,
}

} // verus!

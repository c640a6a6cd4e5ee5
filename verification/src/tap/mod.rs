//! Taps: streams of events about the requests that go by.
pub mod daemon;
pub mod event;
pub mod grpc;
pub mod service;

use crate::addr::SocketAddr;
use crate::labels::Labels;
use crate::message::Request;
use vstd::prelude::*;

verus! {

/// Tells where a request comes from and where it goes.
pub trait Inspect: Sized {
    /// Where a request comes from, if that is known.
    spec fn src<B>(self, req: Request<B>) -> Option<SocketAddr>;

    /// Where a request goes, if that is known.
    spec fn dst<B>(self, req: Request<B>) -> Option<SocketAddr>;

    /// What is known of where a request goes.
    spec fn labels<B>(self, req: Request<B>) -> Option<Labels>;

    /// Whether a request leaves the local instance.
    spec fn outbound<B>(self, req: Request<B>) -> bool;

    /// Where a request comes from, if that is known.
    fn src_addr<B>(&self, req: &Request<B>) -> (r: Option<SocketAddr>)
        ensures
            r == self.src(*req),
    ;

    /// Where a request goes, if that is known.
    fn dst_addr<B>(&self, req: &Request<B>) -> (r: Option<SocketAddr>)
        ensures
            r == self.dst(*req),
    ;

    /// What is known of where a request goes.
    fn dst_labels<B>(&self, req: &Request<B>) -> (r: Option<&Labels>)
        ensures
            r == match self.labels(*req) {
                Some(labels) => Some(&labels),
                None => None,
            },
    ;

    /// Whether a request leaves the local instance.
    fn is_outbound<B>(&self, req: &Request<B>) -> (r: bool)
        ensures
            r == self.outbound(*req),
    ;

    /// Whether a request reaches the local instance.
    fn is_inbound<B>(&self, req: &Request<B>) -> (r: bool)
        ensures
            r == !self.outbound(*req),
    {
        !self.is_outbound(req)
    }
}

} // verus!

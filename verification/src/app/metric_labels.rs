//! How endpoints are labelled in metrics.
use crate::addr::{Addr, SocketAddr};
use crate::app::outbound;
use crate::inbound;
use vstd::prelude::*;
use vstd::string::StringExecFns;

verus! {

/// The labels of an endpoint.
#[derive(Debug, PartialEq, Eq, Hash)]
pub struct EndpointLabels {
    pub addr: SocketAddr,
    pub dst: Option<Addr>,
    pub labels: String,
}

impl EndpointLabels {
    /// The labels of an endpoint that inbound requests are sent to.
    pub fn from_inbound(ep: inbound::Endpoint) -> (r: Self)
        ensures
            r.addr == ep.addr,
            r.dst == ep.dst,
            r.labels@ == "TO=DO"@,
    {
        EndpointLabels { addr: ep.addr, dst: ep.dst, labels: String::from_str("TO=DO") }
    }

    /// The labels of an endpoint that outbound requests are sent to.
    pub fn from_outbound<C>(ep: outbound::Endpoint<C>) -> (r: Self)
        ensures
            r.addr == ep.connect.addr,
            r.dst == match ep.dst_name {
                Some(name) => Some(Addr::Name(name)),
                None => None,
            },
            r.labels@ == "FIX=ME"@,
    {
        EndpointLabels {
            addr: ep.connect.addr,
            dst: match ep.dst_name {
                Some(name) => Some(Addr::Name(name)),
                None => None,
            },
            labels: String::from_str("FIX=ME"),
        }
    }

    /// Writes the labels.
    pub fn fmt_labels(&self) -> (s: &str)
        ensures
            s@ == self.labels@,
    {
        self.labels.as_str()
    }
}

/// The labels of an endpoint tell its address and its destination: those of an inbound one the
/// destination that it has, and those of an outbound one the name that was resolved, with its
/// port.
pub proof fn labels_tell_address_and_destination<C>(
    inbound: inbound::Endpoint,
    outbound: outbound::Endpoint<C>,
    a: EndpointLabels,
    b: EndpointLabels,
)
    requires
        call_ensures(EndpointLabels::from_inbound, (inbound,), a),
        call_ensures(EndpointLabels::from_outbound::<C>, (outbound,), b),
    ensures
        a.addr == inbound.addr,
        a.dst == inbound.dst,
        b.addr == outbound.connect.addr,
        b.dst is Some <==> outbound.dst_name is Some,
        b.dst matches Some(dst) ==> (dst matches Addr::Name(name) && outbound.dst_name == Some(
            name,
        )),
{
}

} // verus!

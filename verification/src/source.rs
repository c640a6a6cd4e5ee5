//! Where a connection came from.
use crate::addr::SocketAddr;
use crate::tls;
use vstd::prelude::*;

verus! {

/// The ends of an accepted connection.
#[derive(Debug, PartialEq, Eq, Hash)]
pub struct Source {
    /// The peer.
    pub remote: SocketAddr,
    /// The local end.
    pub local: SocketAddr,
    /// Where the connection was headed before it was redirected to this proxy.
    pub orig_dst: Option<SocketAddr>,
    pub tls_status: tls::Status,
}

impl Source {
    /// The original destination, unless it is this proxy itself: forwarding there would loop.
    pub open spec fn spec_orig_dst_if_not_local(self) -> Option<SocketAddr> {
        match self.orig_dst {
            Some(addr) => if addr.same(self.local) {
                None
            } else {
                Some(addr)
            },
            None => None,
        }
    }

    /// Returns the original destination, unless it is this proxy itself.
    pub fn orig_dst_if_not_local(&self) -> (r: Option<SocketAddr>)
        ensures
            r == self.spec_orig_dst_if_not_local(),
    {
        match &self.orig_dst {
            Some(addr) => if addr.is_same(&self.local) {
                None
            } else {
                Some(addr.clone())
            },
            None => None,
        }
    }
}

impl Clone for Source {
    fn clone(&self) -> (r: Self)
        ensures
            r == *self,
    {
        Source {
            remote: self.remote.clone(),
            local: self.local.clone(),
            orig_dst: match &self.orig_dst {
                Some(addr) => Some(addr.clone()),
                None => None,
            },
            tls_status: self.tls_status,
        }
    }
}

/// The original destination of a connection is told whenever it differs from the local end, be
/// it in the IP address or in the port, and it is told as it is. Where it does not differ, or
/// there is none, nothing is told.
pub proof fn other_destinations_are_told(source: Source, r: Option<SocketAddr>)
    requires
        call_ensures(Source::orig_dst_if_not_local, (&source,), r),
    ensures
        r is Some ==> r == source.orig_dst,
        source.orig_dst matches Some(dst) && dst.port != source.local.port ==> r
            == source.orig_dst,
        source.orig_dst matches Some(dst) && dst.ip.text() != source.local.ip.text() ==> r
            == source.orig_dst,
        source.orig_dst matches Some(dst) && (dst.ip is V4) != (source.local.ip is V4) ==> r
            == source.orig_dst,
        source.orig_dst == Some(source.local) ==> r is None,
        source.orig_dst matches Some(dst) && dst.port == source.local.port && (dst.ip is V4)
            == (source.local.ip is V4) && dst.ip.text() == source.local.ip.text() ==> r is None,
{
}

} // verus!

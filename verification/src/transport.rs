//! Where and how connections are made.
use crate::addr::SocketAddr;
use crate::conditional::Conditional;
use crate::tls::{ConnectionConfig, ReasonForNoTls};
use vstd::prelude::*;

verus! {

/// The target of a connection.
#[derive(Debug, PartialEq, Eq, Hash)]
pub struct Target<C> {
    pub addr: SocketAddr,
    pub tls: Conditional<ConnectionConfig<C>, ReasonForNoTls>,
}

impl<C> Target<C> {
    /// A connection to `addr`.
    pub fn new(addr: SocketAddr, tls: Conditional<ConnectionConfig<C>, ReasonForNoTls>) -> (t: Self)
        ensures
            t == (Target { addr, tls }),
    {
        Target { addr, tls }
    }

    /// Whether `other` is a copy of this target.
    pub open spec fn is_copied(self, other: Self) -> bool where C: Clone {
        &&& other.addr == self.addr
        &&& match (self.tls, other.tls) {
            (Conditional::Present(a), Conditional::Present(b)) => {
                &&& b.server_identity == a.server_identity
                &&& cloned(a.config, b.config)
            },
            (Conditional::Absent(a), Conditional::Absent(b)) => a == b,
            _ => false,
        }
    }
}

impl<C: Clone> Clone for Target<C> {
    fn clone(&self) -> (r: Self)
        ensures
            self.is_copied(r),
    {
        Target {
            addr: self.addr.clone(),
            tls: match &self.tls {
                Conditional::Present(cc) => Conditional::Present(
                    ConnectionConfig {
                        server_identity: cc.server_identity.clone(),
                        config: cc.config.clone(),
                    },
                ),
                Conditional::Absent(reason) => Conditional::Absent(*reason),
            },
        }
    }
}

/// A copy of a target connects to the same address, over TLS exactly if the target does, to the
/// same peer and for the same reason otherwise.
pub proof fn copies_connect_alike<C: Clone>(target: Target<C>, r: Target<C>)
    requires
        call_ensures(<Target<C> as Clone>::clone, (&target,), r),
    ensures
        r.addr == target.addr,
        match (target.tls, r.tls) {
            (Conditional::Present(a), Conditional::Present(b)) => a.server_identity
                == b.server_identity && cloned(a.config, b.config),
            (Conditional::Absent(a), Conditional::Absent(b)) => a == b,
            _ => false,
        },
{
}

} // verus!

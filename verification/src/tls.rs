//! What is known of TLS on a connection.
use crate::conditional::Conditional;
use vstd::prelude::*;

verus! {

/// Why the identity of a peer is not known.
#[derive(Clone, Copy, Debug, PartialEq, Eq, Hash, Structural)]
pub enum ReasonForNoIdentity {
    /// The request named no authority, so there was nothing to look an identity up by.
    NoAuthorityInHttpRequest,
    /// Service discovery gave no identity for the endpoint.
    NotProvidedByServiceDiscovery,
}

/// Why a connection does not use TLS.
#[derive(Clone, Copy, Debug, PartialEq, Eq, Hash, Structural)]
pub enum ReasonForNoTls {
    /// TLS is disabled.
    Disabled,
    /// TLS is enabled, but there is no configuration for it yet.
    NoConfig,
    /// The identity of the peer is not known.
    NoIdentity(ReasonForNoIdentity),
}

/// The name that a peer's certificate must carry.
#[derive(Debug, PartialEq, Eq, Hash)]
pub struct Identity {
    pub name: String,
}

impl Clone for Identity {
    fn clone(&self) -> (r: Self)
        ensures
            r == *self,
    {
        Identity { name: self.name.clone() }
    }
}

/// The TLS status of an accepted connection.
pub type Status = Conditional<(), ReasonForNoTls>;

/// How a TLS client connection is made: whom it expects, and with which configuration.
#[derive(Debug, PartialEq, Eq, Hash)]
pub struct ConnectionConfig<C> {
    pub server_identity: Identity,
    pub config: C,
}

/// The reason for not using TLS on a connection to a peer without an identity.
pub open spec fn no_identity(reason: ReasonForNoIdentity) -> ReasonForNoTls {
    ReasonForNoTls::NoIdentity(reason)
}

/// Why a newly discovered endpoint is not (yet) connected to over TLS: because it has no
/// identity, or because its configuration is filled in only later.
pub open spec fn initial_reason(
    identity: Conditional<Identity, ReasonForNoIdentity>,
) -> ReasonForNoTls {
    match identity {
        Conditional::Absent(reason) => no_identity(reason),
        Conditional::Present(_) => ReasonForNoTls::NoConfig,
    }
}

/// Notes why a newly discovered endpoint is not (yet) connected to over TLS.
pub fn reason_for_no_tls(identity: &Conditional<Identity, ReasonForNoIdentity>) -> (r:
    ReasonForNoTls)
    ensures
        r == initial_reason(*identity),
{
    match identity {
        Conditional::Absent(reason) => ReasonForNoTls::NoIdentity(*reason),
        Conditional::Present(_) => ReasonForNoTls::NoConfig,
    }
}

/// Whether `r` is the configuration of connections to a peer with `identity`, made with
/// `config`: it takes both, and where either is missing the reason is given, the lack of
/// an identity first.
pub open spec fn is_connection_config<C: Clone>(
    identity: Conditional<Identity, ReasonForNoIdentity>,
    config: Conditional<C, ReasonForNoTls>,
    r: Conditional<ConnectionConfig<C>, ReasonForNoTls>,
) -> bool {
    match (identity, config) {
        (Conditional::Absent(reason), _) => r == Conditional::<
            ConnectionConfig<C>,
            ReasonForNoTls,
        >::Absent(no_identity(reason)),
        (Conditional::Present(_), Conditional::Absent(reason)) => r == Conditional::<
            ConnectionConfig<C>,
            ReasonForNoTls,
        >::Absent(reason),
        (Conditional::Present(id), Conditional::Present(c)) => {
            &&& r matches Conditional::Present(cc)
            &&& cc.server_identity == id
            &&& cloned(c, cc.config)
        },
    }
}

/// Combines the identity of a peer with the current client configuration.
pub fn connection_config<C: Clone>(
    identity: &Conditional<Identity, ReasonForNoIdentity>,
    config: &Conditional<C, ReasonForNoTls>,
) -> (r: Conditional<ConnectionConfig<C>, ReasonForNoTls>)
    ensures
        is_connection_config(*identity, *config, r),
{
    match identity {
        Conditional::Absent(reason) => Conditional::Absent(ReasonForNoTls::NoIdentity(*reason)),
        Conditional::Present(id) => match config {
            Conditional::Absent(reason) => Conditional::Absent(*reason),
            Conditional::Present(c) => Conditional::Present(
                ConnectionConfig { server_identity: id.clone(), config: c.clone() },
            ),
        },
    }
}

/// A connection is made over TLS exactly if it is known whom to expect and how to connect. It
/// expects that peer. Otherwise the reason is told: first that there is no identity.
pub proof fn tls_takes_identity_and_configuration<C: Clone>(
    identity: Conditional<Identity, ReasonForNoIdentity>,
    config: Conditional<C, ReasonForNoTls>,
    r: Conditional<ConnectionConfig<C>, ReasonForNoTls>,
)
    requires
        call_ensures(connection_config::<C>, (&identity, &config), r),
    ensures
        r is Present <==> identity is Present && config is Present,
        r matches Conditional::Present(tls) ==> identity == Conditional::<
            Identity,
            ReasonForNoIdentity,
        >::Present(tls.server_identity),
        r matches Conditional::Present(tls) ==> config matches Conditional::Present(c) ==> cloned(
            c,
            tls.config,
        ),
        identity matches Conditional::Absent(reason) ==> r matches Conditional::Absent(why) ==> why
            == ReasonForNoTls::NoIdentity(reason),
        identity is Present ==> match (config, r) {
            (Conditional::Absent(reason), Conditional::Absent(why)) => why == reason,
            _ => true,
        },
{
}

/// A newly discovered endpoint is not connected to over TLS for want of an identity, and only if
/// it has one, for want of a configuration.
pub proof fn new_endpoints_tell_why_they_have_no_tls(
    identity: Conditional<Identity, ReasonForNoIdentity>,
    r: ReasonForNoTls,
)
    requires
        call_ensures(reason_for_no_tls, (&identity,), r),
    ensures
        identity is Present <==> r == ReasonForNoTls::NoConfig,
        identity matches Conditional::Absent(reason) ==> r == ReasonForNoTls::NoIdentity(reason),
        r != ReasonForNoTls::Disabled,
{
}

} // verus!

//! Traffic targets, and what is known about them.
use crate::addr::SocketAddr;
use crate::conditional::Conditional;
use crate::labels::{copy_labels, no_labels, Labels};
use crate::tls::{Identity, ReasonForNoIdentity};
use vstd::prelude::*;

verus! {

/// An individual traffic target.
///
/// Equality is determined solely by the endpoint's address.
#[derive(Debug)]
pub struct Endpoint {
    pub address: SocketAddr,
    pub metadata: Metadata,
}

/// Metadata describing an endpoint.
#[derive(Debug)]
pub struct Metadata {
    /// Arbitrary endpoint labels. Primarily used for telemetry.
    pub labels: Labels,
    /// A hint from the controller about what protocol (HTTP1, HTTP2, etc) the
    /// destination understands.
    pub protocol_hint: ProtocolHint,
    /// How to verify TLS for the endpoint.
    pub tls_identity: Conditional<Identity, ReasonForNoIdentity>,
}

/// What the controller says about the protocol of a destination.
#[derive(Clone, Copy, Debug, Eq, PartialEq, Structural)]
pub enum ProtocolHint {
    /// We don't what the destination understands, so forward messages in the
    /// protocol we received them in.
    Unknown,
    /// The destination can receive HTTP2 messages.
    Http2,
}

impl Endpoint {
    /// An endpoint with metadata.
    pub fn new(address: SocketAddr, metadata: Metadata) -> (e: Self)
        ensures
            e == (Endpoint { address, metadata }),
    {
        Endpoint { address, metadata }
    }

    /// The address of the endpoint.
    pub fn address(&self) -> (a: SocketAddr)
        ensures
            a == self.address,
    {
        self.address.clone()
    }

    /// The metadata of the endpoint.
    pub fn metadata(&self) -> (m: &Metadata)
        ensures
            *m == self.metadata,
    {
        &self.metadata
    }

    /// The labels of the endpoint.
    pub fn labels(&self) -> (l: &Labels)
        ensures
            *l == self.metadata.labels,
    {
        self.metadata.labels()
    }

    /// Whether the endpoint is another instance of this proxy, to which HTTP/1 can be sent
    /// over HTTP/2.
    pub fn can_use_orig_proto(&self) -> (r: bool)
        ensures
            r == (self.metadata.protocol_hint is Http2),
    {
        match self.metadata.protocol_hint() {
            ProtocolHint::Unknown => false,
            ProtocolHint::Http2 => true,
        }
    }

    /// How to verify TLS for the endpoint.
    pub fn tls_identity(&self) -> (r: Conditional<&Identity, ReasonForNoIdentity>)
        ensures
            r == self.metadata.tls_identity.spec_as_ref(),
    {
        self.metadata.tls_identity()
    }
}

impl PartialEq for Endpoint {
    fn eq(&self, other: &Self) -> (r: bool) {
        self.address.is_same(&other.address)
    }
}

impl vstd::std_specs::cmp::PartialEqSpecImpl for Endpoint {
    open spec fn obeys_eq_spec() -> bool {
        true
    }

    open spec fn eq_spec(&self, other: &Self) -> bool {
        self.address.same(other.address)
    }
}

impl Eq for Endpoint {

}

impl Clone for Endpoint {
    fn clone(&self) -> (r: Self)
        ensures
            r.address == self.address,
            self.metadata.is_copied(r.metadata),
    {
        Endpoint { address: self.address.clone(), metadata: self.metadata.clone() }
    }
}

impl From<SocketAddr> for Endpoint {
    fn from(address: SocketAddr) -> (r: Self)
        ensures
            r.address == address,
            r.metadata.is_none(ReasonForNoIdentity::NotProvidedByServiceDiscovery),
    {
        Endpoint { address, metadata: Metadata::no_metadata() }
    }
}

impl vstd::std_specs::convert::FromSpecImpl<SocketAddr> for Endpoint {
    open spec fn obeys_from_spec() -> bool {
        false
    }

    open spec fn from_spec(address: SocketAddr) -> Self {
        arbitrary()
    }
}

impl Metadata {
    /// Nothing is known of an endpoint, for a reason.
    pub open spec fn is_none(self, reason: ReasonForNoIdentity) -> bool {
        &&& crate::labels::label_values(self.labels) == Map::<Seq<char>, Seq<char>>::empty()
        &&& self.protocol_hint is Unknown
        &&& self.tls_identity == Conditional::<Identity, ReasonForNoIdentity>::Absent(reason)
    }

    /// Whether `other` is a copy.
    pub open spec fn is_copied(self, other: Metadata) -> bool {
        &&& crate::labels::label_values(other.labels) == crate::labels::label_values(self.labels)
        &&& other.protocol_hint == self.protocol_hint
        &&& other.tls_identity == self.tls_identity
    }

    /// Construct a Metadata struct representing an endpoint with no metadata.
    pub fn no_metadata() -> (m: Self)
        ensures
            m.is_none(ReasonForNoIdentity::NotProvidedByServiceDiscovery),
    {
        // If we have no metadata on an endpoint, assume it does not support TLS.
        Metadata::none(ReasonForNoIdentity::NotProvidedByServiceDiscovery)
    }

    /// Metadata of an endpoint of which nothing is known, for a reason.
    pub fn none(reason: ReasonForNoIdentity) -> (m: Self)
        ensures
            m.is_none(reason),
    {
        Metadata {
            labels: no_labels(),
            protocol_hint: ProtocolHint::Unknown,
            tls_identity: Conditional::Absent(reason),
        }
    }

    /// Metadata of an endpoint.
    pub fn new(
        labels: Labels,
        protocol_hint: ProtocolHint,
        tls_identity: Conditional<Identity, ReasonForNoIdentity>,
    ) -> (m: Self)
        ensures
            m == (Metadata { labels, protocol_hint, tls_identity }),
    {
        Metadata { labels, protocol_hint, tls_identity }
    }

    /// Returns the endpoint's labels from the destination service, if it has them.
    pub fn labels(&self) -> (l: &Labels)
        ensures
            *l == self.labels,
    {
        &self.labels
    }

    /// What the controller says about the protocol of the endpoint.
    pub fn protocol_hint(&self) -> (h: ProtocolHint)
        ensures
            h == self.protocol_hint,
    {
        self.protocol_hint
    }

    /// How to verify TLS for the endpoint.
    pub fn tls_identity(&self) -> (r: Conditional<&Identity, ReasonForNoIdentity>)
        ensures
            r == self.tls_identity.spec_as_ref(),
    {
        self.tls_identity.as_ref()
    }
}

impl Clone for Metadata {
    fn clone(&self) -> (r: Self)
        ensures
            self.is_copied(r),
    {
        Metadata {
            labels: copy_labels(&self.labels),
            protocol_hint: self.protocol_hint,
            tls_identity: match &self.tls_identity {
                Conditional::Present(identity) => Conditional::Present(identity.clone()),
                Conditional::Absent(reason) => Conditional::Absent(*reason),
            },
        }
    }
}

/// Endpoints are the same exactly if they are at one address, whatever else is known of them.
pub proof fn endpoints_are_told_by_their_address(a: Endpoint, b: Endpoint, r: bool, same: bool)
    requires
        call_ensures(<Endpoint as PartialEq>::eq, (&a, &b), r),
        call_ensures(SocketAddr::is_same, (&a.address, &b.address), same),
    ensures
        r == same,
{
}

/// Of an endpoint that was found by its address alone nothing is known: it has no labels, no
/// identity, and is not taken for another proxy.
pub proof fn bare_endpoints_have_no_metadata(address: SocketAddr, ep: Endpoint, orig_proto: bool)
    requires
        call_ensures(<Endpoint as From<SocketAddr>>::from, (address,), ep),
        call_ensures(Endpoint::can_use_orig_proto, (&ep,), orig_proto),
    ensures
        ep.address == address,
        !orig_proto,
        crate::labels::label_values(ep.metadata.labels) == Map::<Seq<char>, Seq<char>>::empty(),
        ep.metadata.tls_identity == Conditional::<Identity, ReasonForNoIdentity>::Absent(
            ReasonForNoIdentity::NotProvidedByServiceDiscovery,
        ),
{
}

/// An endpoint is another instance of this proxy exactly if the controller says that it takes
/// HTTP/2.
pub proof fn other_proxies_are_told_by_the_hint(ep: Endpoint, r: bool)
    requires
        call_ensures(Endpoint::can_use_orig_proto, (&ep,), r),
    ensures
        r <==> ep.metadata.protocol_hint == ProtocolHint::Http2,
        !r <==> ep.metadata.protocol_hint == ProtocolHint::Unknown,
{
}

/// A copy of an endpoint is one of the same endpoint, with the same labels, hint and identity.
pub proof fn copies_know_the_same(ep: Endpoint, r: Endpoint)
    requires
        call_ensures(<Endpoint as Clone>::clone, (&ep,), r),
    ensures
        r.address == ep.address,
        crate::labels::label_values(r.metadata.labels) == crate::labels::label_values(
            ep.metadata.labels,
        ),
        r.metadata.protocol_hint == ep.metadata.protocol_hint,
        r.metadata.tls_identity == ep.metadata.tls_identity,
{
}

} // verus!

//! Decides how an endpoint is connected to.
use crate::addr::SocketAddr;
use crate::conditional::Conditional;
use crate::ctx::{Protocol, Proxy};
use crate::endpoint::{Endpoint, Metadata};
use crate::tls::{connection_config, ReasonForNoTls, Status};
use crate::transport::Target;
use vstd::prelude::*;

verus! {

/// Binds services for endpoints.
#[derive(Clone, Copy, Debug)]
pub struct NewEndpoint {
    pub proxy: Proxy,
}

/// What is known of a client, for telemetry.
#[derive(Debug)]
pub struct ClientCtx {
    pub proxy: Proxy,
    pub remote: SocketAddr,
    pub metadata: Metadata,
    pub tls_status: Status,
}

/// How the client for an endpoint is put together, from the inside out: a connection, HTTP with
/// telemetry, URI normalization, the upgrade to HTTP/2 and reconnects.
#[derive(Debug)]
pub struct NewClient<C> {
    pub ctx: ClientCtx,
    pub connect: Target<C>,
    pub protocol: Protocol,
    /// Rewrites the HTTP/1 URI, if the authorities in the Host header
    /// and request URI are not in agreement, or are not present.
    pub was_absolute_form: bool,
    /// Whether requests are upgraded to HTTP/2.
    pub upgrade_orig_proto: bool,
}

/// How a service is bound to an endpoint.
#[derive(Clone, Copy, Debug, PartialEq, Eq, Structural)]
pub enum Binding {
    /// One client serves all requests.
    Bound,
    /// Each request is served by a client of its own.
    BindsPerRequest,
}

/// A service that is bound to an endpoint.
#[derive(Debug)]
pub struct BoundService {
    pub binding: Binding,
    pub debounce_connect_error_log: bool,
    pub endpoint: Endpoint,
    pub protocol: Protocol,
}

/// The protocol that requests to an endpoint are sent in.
///
/// If the endpoint is another instance of this proxy, AND the usage
/// of HTTP/1.1 Upgrades are not needed, then bind to an HTTP2 service
/// instead.
///
/// The related `orig_proto` middleware will automatically translate
/// if the protocol was originally HTTP/1.
pub open spec fn bound_protocol(ep: Endpoint, protocol: Protocol) -> Protocol {
    if ep.metadata.protocol_hint is Http2 && !(protocol matches Protocol::Http1 {
        is_h1_upgrade: true,
        ..
    }) {
        Protocol::Http2
    } else {
        protocol
    }
}

impl NewEndpoint {
    /// Binds services in one direction of traffic.
    pub fn new(proxy: Proxy) -> (r: Self)
        ensures
            r == (NewEndpoint { proxy }),
    {
        NewEndpoint { proxy }
    }

    /// Creates a client for a specific endpoint.
    ///
    /// This binds a service stack that comprises the client for that individual
    /// endpoint. It will have to be rebuilt if the TLS configuration changes.
    pub fn new_client<C: Clone>(
        &self,
        ep: &Endpoint,
        protocol: &Protocol,
        tls_client_config: &Conditional<C, ReasonForNoTls>,
    ) -> (r: NewClient<C>)
        ensures
            r.ctx.proxy == self.proxy,
            r.ctx.remote == ep.address,
            ep.metadata.is_copied(r.ctx.metadata),
            match (r.connect.tls, r.ctx.tls_status) {
                (Conditional::Present(_), Conditional::Present(_)) => true,
                (Conditional::Absent(a), Conditional::Absent(b)) => a == b,
                _ => false,
            },
            r.connect.addr == ep.address,
            crate::tls::is_connection_config(
                ep.metadata.tls_identity,
                *tls_client_config,
                r.connect.tls,
            ),
            r.protocol == *protocol,
            r.was_absolute_form == (protocol matches Protocol::Http1 {
                was_absolute_form: true,
                ..
            }),
            r.upgrade_orig_proto == (*protocol is Http2),
    {
        let tls = connection_config(&ep.metadata.tls_identity, tls_client_config);
        let tls_status: Status = match &tls {
            Conditional::Present(_) => Conditional::Present(()),
            Conditional::Absent(reason) => Conditional::Absent(*reason),
        };
        let addr = ep.address();
        let ctx = ClientCtx {
            proxy: self.proxy,
            remote: addr.clone(),
            metadata: ep.metadata().clone(),
            tls_status,
        };
        NewClient {
            ctx,
            connect: Target::new(addr, tls),
            protocol: protocol.clone(),
            was_absolute_form: protocol.was_absolute_form(),
            upgrade_orig_proto: protocol.is_http2(),
        }
    }

    /// Binds a service to an endpoint.
    pub fn bind_service(&self, ep: &Endpoint, protocol: &Protocol) -> (r: BoundService)
        ensures
            r.protocol == bound_protocol(*ep, *protocol),
            r.binding == if bound_protocol(*ep, *protocol).reuses_clients() {
                Binding::Bound
            } else {
                Binding::BindsPerRequest
            },
            r.endpoint.address == ep.address,
            ep.metadata.is_copied(r.endpoint.metadata),
            !r.debounce_connect_error_log,
    {
        let protocol: Protocol = if ep.can_use_orig_proto() && !protocol.is_h1_upgrade() {
            Protocol::Http2
        } else {
            protocol.clone()
        };
        let binding: Binding = if protocol.can_reuse_clients() {
            Binding::Bound
        } else {
            Binding::BindsPerRequest
        };
        BoundService { binding, debounce_connect_error_log: false, endpoint: ep.clone(), protocol }
    }
}

/// Requests for an HTTP/1.1 upgrade are never sent over HTTP/2, and whatever is sent over HTTP/2
/// shares its client.
pub proof fn upgrades_stay_http1(ep: Endpoint, protocol: Protocol)
    ensures
        (protocol matches Protocol::Http1 { is_h1_upgrade: true, .. }) ==> bound_protocol(
            ep,
            protocol,
        ) == protocol,
        bound_protocol(ep, protocol) is Http2 ==> bound_protocol(ep, protocol).reuses_clients(),
{
}

/// An HTTP/1 request goes over HTTP/2 exactly if its endpoint is another instance of this proxy
/// and no HTTP/1.1 upgrade is asked for. Otherwise it goes as it came.
pub proof fn other_proxies_are_reached_over_http2(
    bind: NewEndpoint,
    ep: Endpoint,
    protocol: Protocol,
    r: BoundService,
    upgrade: bool,
)
    requires
        call_ensures(NewEndpoint::bind_service, (&bind, &ep, &protocol), r),
        call_ensures(Protocol::is_h1_upgrade, (&protocol,), upgrade),
    ensures
        upgrade ==> r.protocol == protocol,
        ep.metadata.protocol_hint is Http2 && !upgrade ==> r.protocol is Http2,
        ep.metadata.protocol_hint is Unknown ==> r.protocol == protocol,
        r.endpoint.address == ep.address,
        r.endpoint.metadata.protocol_hint == ep.metadata.protocol_hint,
        r.endpoint.metadata.tls_identity == ep.metadata.tls_identity,
        crate::labels::label_values(r.endpoint.metadata.labels) == crate::labels::label_values(
            ep.metadata.labels,
        ),
        !r.debounce_connect_error_log,
{
}

/// One client serves all requests that go over HTTP/2 or to a host that is known. A request to a
/// host that is not known has a client of its own.
pub proof fn unknown_hosts_are_bound_per_request(
    bind: NewEndpoint,
    ep: Endpoint,
    protocol: Protocol,
    r: BoundService,
    shared: bool,
)
    requires
        call_ensures(NewEndpoint::bind_service, (&bind, &ep, &protocol), r),
        call_ensures(Protocol::can_reuse_clients, (&r.protocol,), shared),
    ensures
        shared ==> r.binding == Binding::Bound,
        !shared ==> r.binding == Binding::BindsPerRequest,
{
}

/// A client connects to its endpoint, in the protocol that was asked for, and over TLS exactly if
/// both an identity and a configuration are there. What telemetry is told of TLS agrees with how
/// the connection is made.
pub proof fn clients_connect_to_their_endpoint<C: Clone>(
    bind: NewEndpoint,
    ep: Endpoint,
    protocol: Protocol,
    config: Conditional<C, ReasonForNoTls>,
    r: NewClient<C>,
)
    requires
        call_ensures(NewEndpoint::new_client::<C>, (&bind, &ep, &protocol, &config), r),
    ensures
        r.connect.addr == ep.address,
        r.ctx.remote == ep.address,
        r.ctx.proxy == bind.proxy,
        r.protocol == protocol,
        r.upgrade_orig_proto <==> protocol is Http2,
        r.was_absolute_form <==> (protocol matches Protocol::Http1 {
            was_absolute_form: true,
            ..
        }),
        r.connect.tls is Present <==> ep.metadata.tls_identity is Present && config is Present,
        r.connect.tls is Present <==> r.ctx.tls_status is Present,
        r.connect.tls matches Conditional::Absent(a) ==> r.ctx.tls_status matches Conditional::Absent(b)
            ==> a == b,
        r.connect.tls matches Conditional::Present(tls) ==> ep.metadata.tls_identity
            == Conditional::<crate::tls::Identity, crate::tls::ReasonForNoIdentity>::Present(
            tls.server_identity,
        ),
        ep.metadata.tls_identity matches Conditional::Absent(reason) ==> r.connect.tls
            == Conditional::<crate::tls::ConnectionConfig<C>, ReasonForNoTls>::Absent(
            ReasonForNoTls::NoIdentity(reason),
        ),
{
}

} // verus!

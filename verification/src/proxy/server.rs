//! Serves accepted connections.
//!
//! A server determines what protocol a connection is speaking, and routes it to the
//! corresponding service. The connection itself stays with the caller, who reports what was
//! found on it and does what the server decides.
use crate::addr::SocketAddr;
use crate::ctx::Proxy;
use crate::message::Request;
use crate::ports::has_port;
use crate::proxy::protocol::Protocol;
use crate::source::Source;
use crate::stack::new_service::MakeNewService;
use crate::stack::Stack;
use crate::time::Duration;
use crate::tls;
use indexmap::IndexSet;
use vstd::prelude::*;

verus! {

/// A protocol-transparent server.
pub struct Server<M> {
    pub proxy: Proxy,
    pub listen_addr: SocketAddr,
    pub tcp_connect_timeout: Duration,
    pub disable_protocol_detection_ports: IndexSet<u16>,
    /// Builds the service for an HTTP connection.
    pub make: M,
}

/// What is known of a connection when it is accepted.
#[derive(Debug)]
pub struct Accepted {
    pub remote: SocketAddr,
    /// The local end, if the operating system tells it.
    pub local: Option<SocketAddr>,
    /// The `SO_ORIGINAL_DST` of the connection.
    pub orig_dst: Option<SocketAddr>,
    pub tls_status: tls::Status,
}

/// How the handling of a connection begins.
#[derive(Debug)]
pub enum Start {
    /// The bytes are forwarded to the original destination as they come.
    ForwardTcp(Source),
    /// The first bytes are looked at, to detect the protocol.
    Peek(Source),
}

/// What came of peeking on a connection.
#[derive(Clone, Copy, Debug, PartialEq, Eq, Structural)]
pub enum Peeked {
    Failed,
    /// The protocol that the first bytes belong to, if it is known.
    Detected(Option<Protocol>),
}

/// How a connection is handled once its first bytes are known.
pub enum Serve<V, M> {
    /// The bytes are forwarded to the original destination as they come.
    ForwardTcp(Source),
    /// HTTP/1 is served with one service, with support for upgrades (`CONNECT` and
    /// websockets).
    Http1 { service: V, source: Source },
    /// HTTP/2 is served with new services. Each request is marked with the source.
    Http2 { new_service: MakeNewService<Source, M>, source: Source },
    /// The connection is given up.
    Abort,
}

/// What to do with a connection when the process drains.
#[derive(Clone, Copy, Debug, PartialEq, Eq, Structural)]
pub enum OnDrain {
    GracefulShutdown,
    /// There is nothing to do but to wait for the sockets to finish.
    Wait,
}

impl<M> Server<M> {
    /// Creates a new `Server`.
    pub fn new(
        listen_addr: SocketAddr,
        proxy_ctx: Proxy,
        make: M,
        tcp_connect_timeout: Duration,
        disable_protocol_detection_ports: IndexSet<u16>,
    ) -> (s: Self)
        ensures
            s == (Server {
                proxy: proxy_ctx,
                listen_addr,
                tcp_connect_timeout,
                disable_protocol_detection_ports,
                make,
            }),
    {
        Server {
            proxy: proxy_ctx,
            listen_addr,
            tcp_connect_timeout,
            disable_protocol_detection_ports,
            make,
        }
    }

    /// The source of an accepted connection. Where the local end is not known, it is taken to
    /// be where the server listens.
    pub open spec fn source_of(self, connection: Accepted) -> Source {
        Source {
            remote: connection.remote,
            local: match connection.local {
                Some(local) => local,
                None => self.listen_addr,
            },
            orig_dst: connection.orig_dst,
            tls_status: connection.tls_status,
        }
    }

    /// Whether the protocol of a connection is not to be detected.
    ///
    /// The port from the connection's `SO_ORIGINAL_DST` determines this, not any port that
    /// would be found after doing discovery.
    pub open spec fn skips_detection(self, orig_dst: Option<SocketAddr>) -> bool {
        match orig_dst {
            Some(addr) => crate::ports::ports_in(self.disable_protocol_detection_ports).contains(
                addr.port,
            ),
            None => false,
        }
    }

    /// Handles a new connection.
    ///
    /// This will ask to peek on the connection for the first bytes to determine
    /// what protocol the connection is speaking. From there, the connection
    /// will be mapped into respective services.
    pub fn serve(&self, connection: Accepted) -> (r: Start)
        ensures
            r == if self.skips_detection(connection.orig_dst) {
                Start::ForwardTcp(self.source_of(connection))
            } else {
                Start::Peek(self.source_of(connection))
            },
    {
        let source = Source {
            remote: connection.remote,
            local: match connection.local {
                Some(local) => local,
                None => self.listen_addr.clone(),
            },
            orig_dst: connection.orig_dst,
            tls_status: connection.tls_status,
        };
        let disable_protocol_detection: bool = match &source.orig_dst {
            Some(addr) => has_port(&self.disable_protocol_detection_ports, addr.port),
            None => false,
        };
        if disable_protocol_detection {
            Start::ForwardTcp(source)
        } else {
            Start::Peek(source)
        }
    }

    /// Handles a connection whose first bytes are known.
    pub fn serve_detected(&self, source: Source, peeked: Peeked) -> (r: Serve<M::Value, M>) where
        M: Stack<Source, Error = ()> + Clone,

        requires
            self.make.accepts(source),
        ensures
            match peeked {
                Peeked::Failed => r is Abort,
                Peeked::Detected(None) => r == Serve::<M::Value, M>::ForwardTcp(source),
                Peeked::Detected(Some(Protocol::Http1)) => match r {
                    Serve::Http1 { service, source: s } => s == source && self.make.makes(
                        source,
                        Ok(service),
                    ),
                    Serve::Abort => exists|made: Result<M::Value, ()>| #[trigger]
                        self.make.makes(source, made) && made is Err,
                    _ => false,
                },
                Peeked::Detected(Some(Protocol::Http2)) => {
                    &&& r matches Serve::Http2 { new_service, source: s }
                    &&& s == source
                    &&& new_service.target == source
                    &&& cloned(self.make, new_service.make)
                },
            },
    {
        match peeked {
            Peeked::Failed => Serve::Abort,
            Peeked::Detected(None) => Serve::ForwardTcp(source),
            Peeked::Detected(Some(Protocol::Http1)) => match self.make.make(&source) {
                Err(_) => Serve::Abort,
                Ok(service) => Serve::Http1 { service, source },
            },
            Peeked::Detected(Some(Protocol::Http2)) => {
                let new_service = MakeNewService::new(self.make.clone(), source.clone());
                Serve::Http2 { new_service, source }
            },
        }
    }
}

impl<V, M> Serve<V, M> {
    /// Decides what to do when the process drains: HTTP connections are shut down gracefully.
    pub fn on_drain(&self) -> (r: OnDrain)
        ensures
            r == match self {
                Serve::Http1 { .. } | Serve::Http2 { .. } => OnDrain::GracefulShutdown,
                Serve::ForwardTcp(_) | Serve::Abort => OnDrain::Wait,
            },
    {
        match self {
            Serve::Http1 { .. } | Serve::Http2 { .. } => OnDrain::GracefulShutdown,
            Serve::ForwardTcp(_) | Serve::Abort => OnDrain::Wait,
        }
    }
}

/// Marks a request with the connection on which it came in.
pub fn mark_request<B>(source: &Source, req: &mut Request<B>)
    ensures
        final(req).extensions.source == Some(*source),
        *final(req) == (Request { extensions: final(req).extensions, ..*old(req) }),
        final(req).extensions.classify == old(req).extensions.classify,
        final(req).extensions.first_request_started_at == old(req).extensions.first_request_started_at,
{
    req.extensions.source = Some(source.clone());
}

/// A connection whose original destination has a port that is exempt is forwarded without being
/// looked at, and every other one is looked at first, those of unknown destination too.
pub proof fn exempt_ports_are_forwarded<M>(server: Server<M>, connection: Accepted, r: Start)
    requires
        call_ensures(Server::<M>::serve, (&server, connection), r),
    ensures
        connection.orig_dst is None ==> r is Peek,
        connection.orig_dst matches Some(dst) ==> (r is ForwardTcp <==> crate::ports::ports_in(
            server.disable_protocol_detection_ports,
        ).contains(dst.port)),
{
}

/// What is known of a connection is kept. Its local end is where the server listens only if the
/// operating system does not tell it.
pub proof fn sources_are_kept<M>(server: Server<M>, connection: Accepted, r: Start)
    requires
        call_ensures(Server::<M>::serve, (&server, connection), r),
    ensures
        ({
            let source = match r {
                Start::ForwardTcp(source) => source,
                Start::Peek(source) => source,
            };
            &&& source.remote == connection.remote
            &&& source.orig_dst == connection.orig_dst
            &&& source.tls_status == connection.tls_status
            &&& connection.local matches Some(local) ==> source.local == local
            &&& connection.local is None ==> source.local == server.listen_addr
        }),
{
}

/// A connection is served in the protocol that it was found to speak, and forwarded if it speaks
/// none that is known. It is given up if it could not be looked at, or if no service could be
/// built for HTTP/1. The services are built for its source.
pub proof fn connections_are_served_in_their_protocol<M: Stack<Source, Error = ()> + Clone>(
    server: Server<M>,
    source: Source,
    peeked: Peeked,
    r: Serve<M::Value, M>,
)
    requires
        call_ensures(Server::<M>::serve_detected, (&server, source, peeked), r),
    ensures
        r is Http2 <==> peeked == Peeked::Detected(Some(Protocol::Http2)),
        r is ForwardTcp <==> peeked == Peeked::Detected(None),
        r is Http1 ==> peeked == Peeked::Detected(Some(Protocol::Http1)),
        peeked == Peeked::Failed ==> r is Abort,
        r is Abort && peeked != Peeked::Failed ==> peeked == Peeked::Detected(
            Some(Protocol::Http1),
        ) && exists|made: Result<M::Value, ()>| #[trigger]
            server.make.makes(source, made) && made is Err,
        r matches Serve::ForwardTcp(s) ==> s == source,
        r matches Serve::Http1 { service, source: s } ==> s == source && server.make.makes(
            source,
            Ok(service),
        ),
        r matches Serve::Http2 { new_service, source: s } ==> s == source && new_service.target
            == source,
{
}

/// When the process drains, HTTP connections are shut down gracefully, and nothing else is.
pub proof fn http_is_shut_down_gracefully<V, M>(serve: Serve<V, M>, r: OnDrain)
    requires
        call_ensures(Serve::<V, M>::on_drain, (&serve,), r),
    ensures
        r == OnDrain::GracefulShutdown <==> serve is Http1 || serve is Http2,
        r == OnDrain::Wait <==> serve is ForwardTcp || serve is Abort,
{
}

/// A request is marked with the connection on which it came in, whatever mark it had, and changes
/// in nothing else.
pub proof fn requests_are_marked_with_their_source<B>(source: Source, req: &mut Request<B>)
    requires
        call_ensures(mark_request::<B>, (&source, req), ()),
    ensures
        final(req).extensions.source == Some(source),
        final(req).extensions.classify == old(req).extensions.classify,
        final(req).extensions.first_request_started_at
            == old(req).extensions.first_request_started_at,
        final(req).method == old(req).method,
        final(req).uri == old(req).uri,
        final(req).version == old(req).version,
        final(req).headers == old(req).headers,
        final(req).body == old(req).body,
{
}

} // verus!

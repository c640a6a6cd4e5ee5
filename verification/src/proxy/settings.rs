//! How a request is to be sent on.
use crate::ctx::Host;
use crate::message::{Request, Version};
use crate::proxy::h1;
use vstd::prelude::*;

verus! {

/// Settings of the client that serves a request.
#[derive(Debug, PartialEq, Eq)]
pub enum Settings {
    Http1 {
        host: Host,
        /// Whether the request wants to use HTTP/1.1's Upgrade mechanism.
        is_h1_upgrade: bool,
        /// Whether or not the request URI was in absolute form.
        was_absolute_form: bool,
    },
    Http2,
}

impl Settings {
    /// Whether these are the settings for a request.
    pub open spec fn suit<B>(self, req: Request<B>) -> bool {
        match self {
            Settings::Http2 => req.version == Version::Http2,
            Settings::Http1 { host, is_h1_upgrade, was_absolute_form } => {
                &&& req.version != Version::Http2
                &&& host.text() == Host::of_request(req)
                &&& is_h1_upgrade == crate::proxy::h1::asks_for_upgrade(req)
                &&& was_absolute_form == req.uri.scheme is Some
            },
        }
    }

    /// Determines the settings for a request.
    pub fn detect<B>(req: &Request<B>) -> (s: Settings)
        requires
            req.uri.wf(),
        ensures
            s.suit(*req),
    {
        if req.version == Version::Http2 {
            return Settings::Http2;
        }
        let was_absolute_form: bool = h1::is_absolute_form(&req.uri);
        let is_h1_upgrade: bool = h1::wants_upgrade(req);
        Settings::Http1 { host: Host::from_request(req), is_h1_upgrade, was_absolute_form }
    }

    /// Returns true if the request was originally received in absolute form.
    pub fn was_absolute_form(&self) -> (r: bool)
        ensures
            r == (self matches Settings::Http1 { was_absolute_form: true, .. }),
    {
        match self {
            Settings::Http1 { was_absolute_form, .. } => *was_absolute_form,
            _ => false,
        }
    }

    /// Whether a client with these settings can serve more than one request: one that speaks
    /// HTTP/2, or HTTP/1 to a known host.
    pub open spec fn reuses_clients(self) -> bool {
        match self {
            Settings::Http2 => true,
            Settings::Http1 { host, .. } => host is Authority,
        }
    }

    /// Whether a client with these settings can serve more than one request.
    pub fn can_reuse_clients(&self) -> (r: bool)
        ensures
            r == self.reuses_clients(),
    {
        match self {
            Settings::Http2 => true,
            Settings::Http1 { host: Host::Authority(_), .. } => true,
            _ => false,
        }
    }

    /// Whether the request wants to use HTTP/1.1's Upgrade mechanism.
    pub fn is_h1_upgrade(&self) -> (r: bool)
        ensures
            r == (self matches Settings::Http1 { is_h1_upgrade: true, .. }),
    {
        match self {
            Settings::Http1 { is_h1_upgrade: true, .. } => true,
            _ => false,
        }
    }

    /// Whether the request is sent over HTTP/2.
    pub fn is_http2(&self) -> (r: bool)
        ensures
            r == (*self is Http2),
    {
        match self {
            Settings::Http2 => true,
            _ => false,
        }
    }
}

impl Clone for Settings {
    fn clone(&self) -> (r: Self)
        ensures
            r == *self,
    {
        match self {
            Settings::Http1 { host, is_h1_upgrade, was_absolute_form } => Settings::Http1 {
                host: host.clone(),
                is_h1_upgrade: *is_h1_upgrade,
                was_absolute_form: *was_absolute_form,
            },
            Settings::Http2 => Settings::Http2,
        }
    }
}

/// A request is sent over HTTP/2 exactly if it came over it. Any other is sent over HTTP/1, with
/// the host that its URI names or else its `Host` header, and with a note of whether it asks for
/// an upgrade and whether its URI was in absolute form.
pub proof fn settings_are_read_from_the_request<B>(
    req: Request<B>,
    s: Settings,
    upgrade: bool,
    from_header: Option<crate::addr::Authority>,
)
    requires
        call_ensures(Settings::detect::<B>, (&req,), s),
        call_ensures(h1::wants_upgrade::<B>, (&req,), upgrade),
        call_ensures(h1::authority_from_host::<B>, (&req,), from_header),
    ensures
        s is Http2 <==> req.version == Version::Http2,
        s matches Settings::Http1 { host, is_h1_upgrade, was_absolute_form } ==> {
            &&& is_h1_upgrade == upgrade
            &&& was_absolute_form <==> req.uri.scheme is Some
            &&& match host {
                Host::Authority(h) => match (req.uri.authority, from_header) {
                    (Some(a), _) => h.text@ == a.text@,
                    (None, Some(a)) => h.text@ == a.text@,
                    (None, None) => false,
                },
                Host::NoAuthority => req.uri.authority is None && from_header is None,
            }
        },
{
}

/// Clients are shared between requests exactly if they speak HTTP/2, or HTTP/1 to a host that is
/// known: requests without a host have clients of their own.
pub proof fn clients_without_host_are_not_shared(
    s: Settings,
    shared: bool,
    absolute: bool,
    upgrade: bool,
    http2: bool,
)
    requires
        call_ensures(Settings::can_reuse_clients, (&s,), shared),
        call_ensures(Settings::was_absolute_form, (&s,), absolute),
        call_ensures(Settings::is_h1_upgrade, (&s,), upgrade),
        call_ensures(Settings::is_http2, (&s,), http2),
    ensures
        s is Http2 ==> shared && http2 && !absolute && !upgrade,
        s matches Settings::Http1 { host, is_h1_upgrade, was_absolute_form } ==> !http2 && (shared
            <==> host is Authority) && absolute == was_absolute_form && upgrade == is_h1_upgrade,
{
}

} // verus!

//! The decision-making core of a service-mesh proxy.
//!
//! Everything the proxy decides is computed here, on plain values and with a
//! contract: how a request is addressed, normalised, routed and classified,
//! which connections are served as what protocol, when a client is rebuilt, a
//! request retried or a tap notified. Sockets, timers, channels and futures
//! stay with the application around this crate, which reports what happened
//! and carries out what the crate decided.
pub mod addr;
pub mod api;
pub mod app;
pub mod bind;
pub mod conditional;
pub mod ctx;
pub mod dns;
pub mod endpoint;
pub mod handles;
pub mod inbound;
pub mod labels;
pub mod message;
pub mod outbound;
pub mod pattern;
pub mod poll;
pub mod ports;
pub mod proxy;
pub mod ratio;
pub mod sender;
pub mod shared_discover;
pub mod source;
pub mod stack;
pub mod svc;
pub mod tap;
pub mod text;
pub mod time;
pub mod tls;
pub mod transport;

//! The infrastructure for building a proxy.
pub mod balance;
pub mod buffer;
pub mod classify;
pub mod client;
pub mod downgrade;
pub mod h1;
pub mod metrics;
pub mod new_endpoint;
pub mod normalize_uri;
pub mod profiles;
pub mod protocol;
pub mod resolve;
pub mod retry;
pub mod router;
pub mod routes;
pub mod server;
pub mod settings;
pub mod timeout;

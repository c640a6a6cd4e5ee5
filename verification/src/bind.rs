//! Rebuilds the stack of an endpoint when the TLS configuration changes.
use crate::addr::SocketAddr;
use crate::conditional::Conditional;
use crate::ctx::Proxy;
use crate::labels::Labels;
use crate::stack::Stack;
use crate::tls::{connection_config, ConnectionConfig, Identity, ReasonForNoIdentity, ReasonForNoTls};
use std::sync::Arc;
use vstd::prelude::*;

verus! {

/// Identifies a connection from the proxy to another process.
#[derive(Debug)]
pub struct Endpoint<C> {
    pub proxy: Proxy,
    pub address: SocketAddr,
    pub labels: Arc<Labels>,
    pub tls_identity: Conditional<Identity, ReasonForNoIdentity>,
    pub tls_status: Conditional<ConnectionConfig<C>, ReasonForNoTls>,
}

/// Builds stacks for one endpoint and changing TLS configurations.
#[derive(Debug)]
pub struct SetTlsMake<C, M> {
    pub endpoint: Endpoint<C>,
    pub inner: M,
}

impl<C: Clone> Endpoint<C> {
    /// Whether `ep` is this endpoint, connected to with a client configuration.
    pub open spec fn is_configured(
        self,
        config: Conditional<C, ReasonForNoTls>,
        ep: Endpoint<C>,
    ) -> bool {
        &&& ep == (Endpoint { tls_status: ep.tls_status, ..self })
        &&& crate::tls::is_connection_config(self.tls_identity, config, ep.tls_status)
    }
}

impl<C: Clone, M: Stack<Endpoint<C>>> Stack<Conditional<C, ReasonForNoTls>> for SetTlsMake<C, M> {
    type Value = M::Value;

    type Error = M::Error;

    open spec fn accepts(&self, config: Conditional<C, ReasonForNoTls>) -> bool {
        forall|ep: Endpoint<C>| #[trigger]
            self.endpoint.is_configured(config, ep) ==> self.inner.accepts(ep)
    }

    open spec fn makes(
        &self,
        config: Conditional<C, ReasonForNoTls>,
        r: Result<M::Value, M::Error>,
    ) -> bool {
        exists|ep: Endpoint<C>| #[trigger]
            self.endpoint.is_configured(config, ep) && self.inner.makes(ep, r)
    }

    fn make(&self, config: &Conditional<C, ReasonForNoTls>) -> (r: Result<M::Value, M::Error>) {
        let identity: Conditional<Identity, ReasonForNoIdentity> =
            match &self.endpoint.tls_identity {
            Conditional::Present(identity) => Conditional::Present(identity.clone()),
            Conditional::Absent(reason) => Conditional::Absent(*reason),
        };
        let ep = Endpoint {
            proxy: self.endpoint.proxy,
            address: self.endpoint.address.clone(),
            labels: Arc::clone(&self.endpoint.labels),
            tls_status: connection_config(&identity, config),
            tls_identity: identity,
        };
        assert(self.endpoint.is_configured(*config, ep));
        self.inner.make(&ep)
    }
}

/// When the TLS configuration changes, the stack is built for the same endpoint, with that
/// configuration: over TLS exactly if the endpoint has an identity and there is a configuration.
pub proof fn endpoints_are_rebuilt_with_tls<C: Clone, M: Stack<Endpoint<C>>>(
    make: SetTlsMake<C, M>,
    config: Conditional<C, ReasonForNoTls>,
    r: Result<M::Value, M::Error>,
) -> (ep: Endpoint<C>)
    requires
        call_ensures(
            <SetTlsMake<C, M> as Stack<Conditional<C, ReasonForNoTls>>>::make,
            (&make, &config),
            r,
        ),
    ensures
        make.inner.makes(ep, r),
        ep.address == make.endpoint.address,
        ep.proxy == make.endpoint.proxy,
        ep.labels == make.endpoint.labels,
        ep.tls_identity == make.endpoint.tls_identity,
        ep.tls_status is Present <==> make.endpoint.tls_identity is Present && config is Present,
        ep.tls_status matches Conditional::Present(tls) ==> make.endpoint.tls_identity
            == Conditional::<Identity, ReasonForNoIdentity>::Present(tls.server_identity),
{
    choose|ep: Endpoint<C>| #[trigger]
        make.endpoint.is_configured(config, ep) && make.inner.makes(ep, r)
}

} // verus!

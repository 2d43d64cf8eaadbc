use vstd::prelude::*;
use crate::net::SocketAddress;
use crate::router::{Attempt, RouteError, Router};

verus! {

/// Wraps a routing service into a proxy.
pub struct ProxyLayer;

impl ProxyLayer {
    /// The proxy in front of `service`.
    pub fn layer<S>(&self, service: S) -> (r: Proxy<S>)
        ensures
            r.service == service,
    {
        Proxy { service }
    }
}

/// Pipes each inbound connection to the upstream its service picks.
pub struct Proxy<S> {
    pub service: S,
}

impl Proxy<Router> {
    /// Starts proxying an inbound connection whose local (dialed) address is
    /// `local`: the router's attempt for that address.
    pub fn open(&self, local: SocketAddress) -> (r: Result<Attempt, RouteError>)
        requires
            self.service.wf(),
        ensures
            r is Err <==> !self.service.table().contains_key(local.ip),
            r matches Err(e) ==> e == RouteError::NoSuchApp,
            r matches Ok(a) ==> a.wf() && a.live().len() == a.targets().len() && a.targets()
                == self.service.table()[local.ip] && a.port() == local.port && forall|j: int|
                0 <= j < a.targets().len() ==> a.live()[j],
    {
        self.service.route(local)
    }
}

} // verus!

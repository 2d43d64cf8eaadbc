use vstd::prelude::*;
use crate::balance::{effective, picks, select};
use crate::config::{App, AppTarget, Config};
use crate::net::{IpAddress, SocketAddress};

verus! {

/// Why a connection or the routing table could not be set up.
#[derive(Clone, Copy, Debug, PartialEq, Eq, Structural)]
pub enum RouteError {
    /// No app is configured at the address the client dialed.
    NoSuchApp,
    /// An app is configured without any upstream.
    NoTargets,
    /// Two apps share one virtual address.
    DuplicateApp,
    /// Every upstream of the app was tried, and none could be reached.
    ConnectionExhausted,
}

/// The upstreams of one app, keyed by the app's virtual address.
pub struct Route {
    pub ip: IpAddress,
    pub targets: Vec<AppTarget>,
}

/// The routing table: virtual address to upstreams, built once.
pub struct Router {
    routes: Vec<Route>,
}

/// The table that a list of apps describes: each app's virtual address maps
/// to its upstreams.
pub open spec fn app_table(apps: Seq<App>) -> Map<IpAddress, Seq<AppTarget>>
    decreases apps.len(),
{
    if apps.len() == 0 {
        Map::empty()
    } else {
        app_table(apps.drop_last()).insert(apps.last().ip_addr, apps.last().targets@)
    }
}

/// Some app has no upstream.
pub open spec fn has_empty_app(apps: Seq<App>) -> bool {
    exists|i: int| 0 <= i < apps.len() && apps[i].targets@.len() == 0
}

/// Two apps share a virtual address.
pub open spec fn has_duplicate_app(apps: Seq<App>) -> bool {
    exists|i: int, j: int| 0 <= i < j < apps.len() && apps[i].ip_addr == apps[j].ip_addr
}

pub open spec fn route_table(rs: Seq<Route>) -> Map<IpAddress, Seq<AppTarget>>
    decreases rs.len(),
{
    if rs.len() == 0 {
        Map::empty()
    } else {
        route_table(rs.drop_last()).insert(rs.last().ip, rs.last().targets@)
    }
}

pub open spec fn unique_routes(rs: Seq<Route>) -> bool {
    forall|i: int, j: int| 0 <= i < j < rs.len() ==> rs[i].ip != rs[j].ip
}

proof fn lemma_route_table(rs: Seq<Route>, ip: IpAddress)
    requires
        unique_routes(rs),
    ensures
        route_table(rs).contains_key(ip) <==> exists|j: int| 0 <= j < rs.len() && rs[j].ip == ip,
        forall|j: int| 0 <= j < rs.len() && rs[j].ip == ip ==> route_table(rs)[ip] == rs[j].targets@,
    decreases rs.len(),
{
    if rs.len() > 0 {
        let init = rs.drop_last();
        let n = rs.len() - 1;
        assert(unique_routes(init));
        lemma_route_table(init, ip);
        assert(route_table(rs) == route_table(init).insert(rs[n].ip, rs[n].targets@));
        assert forall|j: int| 0 <= j < n implies init[j] == rs[j] by {}
        if rs[n].ip == ip {
            assert forall|j: int| 0 <= j < rs.len() && rs[j].ip == ip implies route_table(rs)[ip]
                == rs[j].targets@ by {
                if j < n {
                    assert(rs[j].ip != rs[n].ip);
                }
            }
        } else {
            if route_table(rs).contains_key(ip) {
                let j = choose|j: int| 0 <= j < init.len() && init[j].ip == ip;
                assert(rs[j].ip == ip);
            }
            assert forall|j: int| 0 <= j < rs.len() && rs[j].ip == ip implies route_table(rs)[ip]
                == rs[j].targets@ by {
                assert(j < n);
                assert(init[j].ip == ip);
            }
            if exists|j: int| 0 <= j < rs.len() && rs[j].ip == ip {
                let j = choose|j: int| 0 <= j < rs.len() && rs[j].ip == ip;
                assert(j < n);
                assert(init[j].ip == ip);
            }
        }
    }
}

fn copy_targets(v: &Vec<AppTarget>) -> (r: Vec<AppTarget>)
    ensures
        r@ == v@,
{
    let mut r: Vec<AppTarget> = Vec::new();
    let mut k: usize = 0;
    while k < v.len()
        invariant
            k <= v@.len(),
            r@ == v@.take(k as int),
        decreases v@.len() - k,
    {
        r.push(v[k]);
        k = k + 1;
        assert(r@ =~= v@.take(k as int));
    }
    assert(v@.take(k as int) =~= v@);
    r
}

impl Router {
    /// The routing table.
    pub closed spec fn table(&self) -> Map<IpAddress, Seq<AppTarget>> {
        route_table(self.routes@)
    }

    /// Every app has an upstream, and no two apps share an address.
    pub closed spec fn wf(&self) -> bool {
        &&& unique_routes(self.routes@)
        &&& forall|j: int| 0 <= j < self.routes@.len() ==> self.routes@[j].targets@.len() > 0
    }

    /// Builds the routing table of a configuration. An app without upstreams
    /// is refused first; then two apps with one address.
    pub fn new(config: Config) -> (r: Result<Router, RouteError>)
        ensures
            r matches Err(RouteError::NoTargets) <==> has_empty_app(config.apps@),
            r matches Err(RouteError::DuplicateApp) <==> !has_empty_app(config.apps@)
                && has_duplicate_app(config.apps@),
            r is Ok <==> !has_empty_app(config.apps@) && !has_duplicate_app(config.apps@),
            r matches Ok(router) ==> router.wf() && router.table() == app_table(config.apps@),
    {
        let apps = &config.apps;
        let mut i: usize = 0;
        while i < apps.len()
            invariant
                apps@ == config.apps@,
                i <= apps@.len(),
                forall|j: int| 0 <= j < i ==> apps@[j].targets@.len() > 0,
            decreases apps@.len() - i,
        {
            if apps[i].targets.len() == 0 {
                assert(apps@[i as int].targets@.len() == 0);
                return Err(RouteError::NoTargets);
            }
            i = i + 1;
        }
        let mut routes: Vec<Route> = Vec::new();
        i = 0;
        while i < apps.len()
            invariant
                apps@ == config.apps@,
                i <= apps@.len(),
                forall|j: int| 0 <= j < apps@.len() ==> apps@[j].targets@.len() > 0,
                routes@.len() == i,
                forall|j: int| 0 <= j < i ==> routes@[j].ip == apps@[j].ip_addr
                    && routes@[j].targets@ == apps@[j].targets@,
                forall|a: int, b: int| 0 <= a < b < i ==> apps@[a].ip_addr != apps@[b].ip_addr,
                unique_routes(routes@),
                route_table(routes@) == app_table(apps@.take(i as int)),
            decreases apps@.len() - i,
        {
            let ip = apps[i].ip_addr;
            let mut k: usize = 0;
            while k < routes.len()
                invariant
                    apps@ == config.apps@,
                    forall|j: int| 0 <= j < apps@.len() ==> apps@[j].targets@.len() > 0,
                    k <= routes@.len(),
                    routes@.len() == i,
                    i < apps@.len(),
                    forall|j: int| 0 <= j < i ==> routes@[j].ip == apps@[j].ip_addr,
                    ip == apps@[i as int].ip_addr,
                    forall|j: int| 0 <= j < k ==> routes@[j].ip != ip,
                decreases routes@.len() - k,
            {
                if routes[k].ip == ip {
                    assert(routes@[k as int].ip == apps@[k as int].ip_addr);
                    assert(apps@[k as int].ip_addr == apps@[i as int].ip_addr);
                    assert(has_duplicate_app(config.apps@));
                    return Err(RouteError::DuplicateApp);
                }
                k = k + 1;
            }
            let ghost before = routes@;
            routes.push(Route { ip, targets: copy_targets(&apps[i].targets) });
            i = i + 1;
            assert(routes@.drop_last() =~= before);
            assert(apps@.take(i as int).drop_last() =~= apps@.take(i - 1));
        }
        assert(apps@.take(i as int) =~= apps@);
        Ok(Router { routes })
    }

    /// Starts routing a connection whose local (dialed) address is `local`:
    /// the attempt holds the app's upstreams, all still in play, and the port
    /// that was dialed.
    pub fn route(&self, local: SocketAddress) -> (r: Result<Attempt, RouteError>)
        requires
            self.wf(),
        ensures
            r matches Err(e) ==> e == RouteError::NoSuchApp,
            r is Err <==> !self.table().contains_key(local.ip),
            r matches Ok(a) ==> a.wf() && a.live().len() == a.targets().len() && a.targets()
                == self.table()[local.ip] && a.port()
                == local.port && a.targets().len() > 0 && forall|j: int|
                0 <= j < a.targets().len() ==> a.live()[j],
    {
        let mut k: usize = 0;
        while k < self.routes.len()
            invariant
                self.wf(),
                k <= self.routes@.len(),
                forall|j: int| 0 <= j < k ==> self.routes@[j].ip != local.ip,
            decreases self.routes@.len() - k,
        {
            if self.routes[k].ip == local.ip {
                proof { lemma_route_table(self.routes@, local.ip); }
                return Ok(Attempt::new(&self.routes[k].targets, local.port));
            }
            k = k + 1;
        }
        proof { lemma_route_table(self.routes@, local.ip); }
        Err(RouteError::NoSuchApp)
    }
}

/// The next upstream to dial for a connection being routed: number `index`
/// of the app's upstreams, at `addr`.
#[derive(Clone, Copy, Debug, PartialEq, Eq, Structural)]
pub struct Dial {
    pub index: usize,
    pub addr: SocketAddress,
}

/// One connection's search for a reachable upstream.
pub struct Attempt {
    targets: Vec<AppTarget>,
    weights: Vec<u8>,
    live: Vec<bool>,
    port: u16,
}

impl Attempt {
    /// The app's upstreams.
    pub closed spec fn targets(&self) -> Seq<AppTarget> {
        self.targets@
    }

    /// Which upstreams are still in play.
    pub closed spec fn live(&self) -> Seq<bool> {
        self.live@
    }

    /// The port the client dialed.
    pub closed spec fn port(&self) -> u16 {
        self.port
    }

    pub closed spec fn wf(&self) -> bool {
        &&& self.live@.len() == self.targets@.len()
        &&& self.weights@.len() == self.targets@.len()
        &&& forall|j: int| 0 <= j < self.targets@.len() ==> self.weights@[j] == self.targets@[j].weight
    }

    /// The weights of the upstreams, in order.
    pub open spec fn weights(&self) -> Seq<u8> {
        Seq::new(self.targets().len(), |j: int| self.targets()[j].weight)
    }

    /// An attempt over `targets`, every one in play, for a client that
    /// dialed `port`.
    pub fn new(targets: &Vec<AppTarget>, port: u16) -> (r: Attempt)
        ensures
            r.wf(),
            r.targets() == targets@,
            r.live().len() == targets@.len(),
            r.port() == port,
            forall|j: int| 0 <= j < targets@.len() ==> r.live()[j],
    {
        let mut weights: Vec<u8> = Vec::new();
        let mut live: Vec<bool> = Vec::new();
        let mut k: usize = 0;
        while k < targets.len()
            invariant
                k <= targets@.len(),
                weights@.len() == k,
                live@.len() == k,
                forall|j: int| 0 <= j < k ==> weights@[j] == targets@[j].weight && live@[j],
            decreases targets@.len() - k,
        {
            weights.push(targets[k].weight);
            live.push(true);
            k = k + 1;
        }
        Attempt { targets: copy_targets(targets), weights, live, port }
    }

    /// The next upstream to dial for request number `ticket`: the weighted
    /// rotation's pick among the upstreams still in play, on the port the
    /// client dialed. `ConnectionExhausted` exactly when none is in play.
    pub fn next_dial(&self, ticket: u64) -> (r: Result<Dial, RouteError>)
        requires
            self.wf(),
        ensures
            r is Err <==> forall|j: int| 0 <= j < self.live().len() ==> !self.live()[j],
            r matches Err(e) ==> e == RouteError::ConnectionExhausted,
            r matches Ok(Dial { index, addr }) ==> {
                &&& index < self.targets().len()
                &&& self.live()[index as int]
                &&& picks(effective(self.weights(), self.live()), index as int, ticket as int)
                &&& forall|j: int| #[trigger] picks(effective(self.weights(), self.live()), j, ticket as int)
                    ==> j == index
                &&& addr.ip == self.targets()[index as int].ip_addr
                &&& addr.port == self.port()
            },
    {
        assert(self.weights@ =~= self.weights());
        match select(&self.weights, &self.live, ticket) {
            None => Err(RouteError::ConnectionExhausted),
            Some(index) => {
                proof {
                    let eff = effective(self.weights(), self.live());
                    let slot = ticket as int % crate::balance::total(eff) as int;
                    crate::balance::lemma_owned_live(self.weights(), self.live(), index as int, slot);
                    assert forall|j: int| #[trigger] picks(eff, j, ticket as int) implies j == index by {
                        crate::balance::lemma_owner_unique(eff, j, index as int, slot);
                    }
                }
                let addr = SocketAddress { ip: self.targets[index].ip_addr, port: self.port };
                Ok(Dial { index, addr })
            },
        }
    }

    /// Takes upstream `index` out of play after dialing it failed.
    pub fn mark_failed(&mut self, index: usize)
        requires
            old(self).wf(),
            index < old(self).targets().len(),
        ensures
            final(self).wf(),
            final(self).targets() == old(self).targets(),
            final(self).port() == old(self).port(),
            final(self).live() == old(self).live().update(index as int, false),
            final(self).live().len() == old(self).live().len(),
    {
        self.live.set(index, false);
    }
}

} // verus!

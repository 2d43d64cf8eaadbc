use vstd::prelude::*;
use crate::config::AppTarget;
use crate::net::{IpAddress, SocketAddress};

verus! {

/// One upstream as the balancer sees it.
#[derive(Clone, Copy, Debug, PartialEq, Eq, Structural)]
pub struct Target {
    pub ip_addr: IpAddress,
    pub weight: u8,
}

impl Target {
    /// The upstream's load metric: its configured weight.
    pub fn load(&self) -> (r: u8)
        ensures
            r == self.weight,
    {
        self.weight
    }

    /// Where to dial this upstream for a client that dialed `port`: the same
    /// port on the upstream's address.
    pub fn endpoint(&self, port: u16) -> (r: SocketAddress)
        ensures
            r.ip == self.ip_addr,
            r.port == port,
    {
        SocketAddress { ip: self.ip_addr, port }
    }
}

/// Hands out an app's upstreams one at a time, last first.
pub struct TargetDiscover {
    pub targets: Vec<AppTarget>,
}

impl TargetDiscover {
    /// The next upstream, keyed by its address; `None` once all are out.
    pub fn poll_next(&mut self) -> (r: Option<(IpAddress, Target)>)
        ensures
            old(self).targets@.len() == 0 ==> r is None && final(self).targets@ == old(self).targets@,
            old(self).targets@.len() > 0 ==> {
                &&& final(self).targets@ == old(self).targets@.drop_last()
                &&& r == Some((old(self).targets@.last().ip_addr, Target {
                    ip_addr: old(self).targets@.last().ip_addr,
                    weight: old(self).targets@.last().weight,
                }))
            },
    {
        match self.targets.pop() {
            Some(t) => Some((t.ip_addr, Target { ip_addr: t.ip_addr, weight: t.weight })),
            None => None,
        }
    }
}

} // verus!

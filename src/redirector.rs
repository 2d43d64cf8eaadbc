use vstd::prelude::*;
use crate::config::{App, Config};
use crate::net::IpAddress;

verus! {

/// Why the kernel redirector cannot be set up for a configuration.
#[derive(Clone, Copy, Debug, PartialEq, Eq, Structural)]
pub enum RedirectorError {
    /// An app has an IPv6 virtual address, which the redirector does not serve.
    Ipv6NotImplemented,
    /// More apps than the address map can be sized for.
    TooManyApps,
}

/// What the redirector's kernel objects are to hold for one configuration.
pub struct RedirectorPlan {
    /// Whether the kernel verifier's output is shown.
    pub debug: bool,
    /// The capacity of the address map: the number of apps.
    pub ips_capacity: u32,
    /// The one key of the socket map.
    pub socket_slot: u32,
    /// The value under that key: the listening socket's descriptor.
    pub socket_fd: u64,
    /// The keys of the address map: each app's IPv4 address, host byte order.
    pub ip_keys: Vec<u32>,
}

/// Some app has an IPv6 virtual address.
pub open spec fn has_ipv6_app(apps: Seq<App>) -> bool {
    exists|i: int| 0 <= i < apps.len() && apps[i].ip_addr is V6
}

/// Some app has the IPv4 virtual address `k`.
pub open spec fn serves_v4(apps: Seq<App>, k: u32) -> bool {
    exists|i: int| 0 <= i < apps.len() && apps[i].ip_addr == IpAddress::V4(k)
}

/// No two apps share a virtual address.
pub open spec fn distinct_apps(apps: Seq<App>) -> bool {
    forall|i: int, j: int| 0 <= i < j < apps.len() ==> apps[i].ip_addr != apps[j].ip_addr
}

/// Plans the kernel redirector for `config` and the listening socket
/// `listen_fd`: one socket slot, zero, holding the descriptor; and one
/// address key per app, each IPv4 virtual address once and nothing else.
/// A descriptor is never negative.
pub fn plan_redirector(config: &Config, listen_fd: i32) -> (r: Result<
    RedirectorPlan,
    RedirectorError,
>)
    requires
        listen_fd >= 0,
    ensures
        r matches Err(RedirectorError::Ipv6NotImplemented) <==> has_ipv6_app(config.apps@),
        r matches Err(RedirectorError::TooManyApps) <==> !has_ipv6_app(config.apps@)
            && config.apps@.len() > u32::MAX,
        r matches Ok(p) ==> {
            &&& p.debug == config.debug
            &&& p.ips_capacity == config.apps@.len()
            &&& p.socket_slot == 0
            &&& p.socket_fd == listen_fd as u64
            &&& p.ip_keys@.no_duplicates()
            &&& forall|k: u32| p.ip_keys@.contains(k) <==> serves_v4(config.apps@, k)
            &&& distinct_apps(config.apps@) ==> p.ip_keys@.len() == config.apps@.len()
        },
{
    let apps = &config.apps;
    let mut keys: Vec<u32> = Vec::new();
    let mut i: usize = 0;
    while i < apps.len()
        invariant
            apps@ == config.apps@,
            i <= apps@.len(),
            forall|j: int| 0 <= j < i ==> apps@[j].ip_addr is V4,
            keys@.no_duplicates(),
            forall|k: u32| keys@.contains(k) <==> serves_v4(apps@.take(i as int), k),
            distinct_apps(apps@) ==> keys@.len() == i,
        decreases apps@.len() - i,
    {
        match apps[i].ip_addr {
            IpAddress::V4(k) => {
                let mut found = false;
                let mut m: usize = 0;
                while m < keys.len()
                    invariant
                        m <= keys@.len(),
                        found <==> exists|j: int| 0 <= j < m && keys@[j] == k,
                    decreases keys@.len() - m,
                {
                    if keys[m] == k {
                        found = true;
                    }
                    m = m + 1;
                }
                let ghost before = keys@;
                let ghost pre = apps@.take(i as int);
                let ghost post = apps@.take(i + 1);
                assert(post =~= pre.push(apps@[i as int]));
                if found {
                    assert(before.contains(k));
                    let ghost w = choose|w: int| 0 <= w < pre.len() && pre[w].ip_addr == IpAddress::V4(k);
                    assert(apps@[w].ip_addr == apps@[i as int].ip_addr);
                } else {
                    keys.push(k);
                }
                assert forall|x: u32| serves_v4(post, x) implies keys@.contains(x) by {
                    let w = choose|w: int| 0 <= w < post.len() && post[w].ip_addr == IpAddress::V4(x);
                    if w < i {
                        assert(pre[w] == post[w]);
                        assert(serves_v4(pre, x));
                        assert(before.contains(x));
                        let q = choose|q: int| 0 <= q < before.len() && before[q] == x;
                        assert(keys@[q] == x);
                    } else {
                        assert(x == k);
                        if found {
                            let q = choose|q: int| 0 <= q < m && before[q] == k;
                            assert(keys@[q] == x);
                        } else {
                            assert(keys@[keys@.len() - 1] == x);
                        }
                    }
                }
                assert forall|x: u32| keys@.contains(x) implies serves_v4(post, x) by {
                    let q = choose|q: int| 0 <= q < keys@.len() && keys@[q] == x;
                    if q < before.len() {
                        assert(keys@[q] == before[q]);
                        assert(before.contains(x));
                        assert(serves_v4(pre, x));
                        let w = choose|w: int| 0 <= w < pre.len() && pre[w].ip_addr == IpAddress::V4(x);
                        assert(post[w] == pre[w]);
                    } else {
                        assert(post[i as int].ip_addr == IpAddress::V4(k));
                    }
                }
            },
            IpAddress::V6(_) => {
                assert(apps@[i as int].ip_addr is V6);
                return Err(RedirectorError::Ipv6NotImplemented);
            },
        }
        i = i + 1;
    }
    assert(apps@.take(i as int) =~= apps@);
    if apps.len() > 4294967295usize {
        return Err(RedirectorError::TooManyApps);
    }
    Ok(RedirectorPlan {
        debug: config.debug,
        ips_capacity: apps.len() as u32,
        socket_slot: 0,
        socket_fd: listen_fd as u64,
        ip_keys: keys,
    })
}

} // verus!

verus! {

/// A kernel object that the redirector pins under the BPF filesystem.
#[derive(Clone, Copy, Debug, PartialEq, Eq, Structural)]
pub enum PinnedObject {
    SocketMap,
    IpsMap,
    RedirectorProg,
}

/// One step on a pin path.
#[derive(Clone, Copy, Debug, PartialEq, Eq, Structural)]
pub enum PinOp {
    /// Remove the pin that stands at the object's path.
    Unpin(PinnedObject),
    /// Pin the freshly loaded object at its path.
    Pin(PinnedObject),
}

/// The path, under the BPF filesystem root, where an object is pinned.
pub open spec fn pin_path(o: PinnedObject) -> Seq<char> {
    match o {
        PinnedObject::SocketMap => "socket_map"@,
        PinnedObject::IpsMap => "ips_map"@,
        PinnedObject::RedirectorProg => "redirector_prog"@,
    }
}

impl PinnedObject {
    /// The object's pin path, relative to the BPF filesystem root.
    pub fn path(&self) -> (r: &'static str)
        ensures
            r@ == pin_path(*self),
    {
        proof {
            reveal_strlit("socket_map");
            reveal_strlit("ips_map");
            reveal_strlit("redirector_prog");
        }
        match self {
            PinnedObject::SocketMap => "socket_map",
            PinnedObject::IpsMap => "ips_map",
            PinnedObject::RedirectorProg => "redirector_prog",
        }
    }
}

/// The steps that replace an object's pin: unpin what stands at the path,
/// if anything does, then pin the new object.
pub open spec fn pin_steps(o: PinnedObject, exists: bool) -> Seq<PinOp> {
    if exists {
        seq![PinOp::Unpin(o), PinOp::Pin(o)]
    } else {
        seq![PinOp::Pin(o)]
    }
}

/// The steps that replace the pin of `object`, given whether its path exists.
pub fn pin_ops(object: PinnedObject, exists: bool) -> (r: Vec<PinOp>)
    ensures
        r@ == pin_steps(object, exists),
{
    let mut r: Vec<PinOp> = Vec::new();
    if exists {
        r.push(PinOp::Unpin(object));
    }
    r.push(PinOp::Pin(object));
    assert(r@ =~= pin_steps(object, exists));
    r
}

/// The pins that stand, each object with the load that made it; `None` once
/// a step was refused, as pinning over an existing path is.
pub open spec fn apply_pin_op(
    pins: Option<Map<PinnedObject, nat>>,
    op: PinOp,
    load: nat,
) -> Option<Map<PinnedObject, nat>> {
    match pins {
        None => None,
        Some(m) => match op {
            PinOp::Unpin(o) => if m.contains_key(o) {
                Some(m.remove(o))
            } else {
                None
            },
            PinOp::Pin(o) => if m.contains_key(o) {
                None
            } else {
                Some(m.insert(o, load))
            },
        },
    }
}

pub open spec fn run_pin_ops(
    pins: Option<Map<PinnedObject, nat>>,
    ops: Seq<PinOp>,
    load: nat,
) -> Option<Map<PinnedObject, nat>>
    decreases ops.len(),
{
    if ops.len() == 0 {
        pins
    } else {
        run_pin_ops(apply_pin_op(pins, ops[0], load), ops.subrange(1, ops.len() as int), load)
    }
}

/// Replaces the pin of one object, looking first whether its path exists.
pub open spec fn replace_pin(
    pins: Option<Map<PinnedObject, nat>>,
    o: PinnedObject,
    load: nat,
) -> Option<Map<PinnedObject, nat>> {
    match pins {
        None => None,
        Some(m) => run_pin_ops(pins, pin_steps(o, m.contains_key(o)), load),
    }
}

/// The pins after one run of the loader: the socket map, the address map and
/// the program, in that order.
pub open spec fn load_pins(pins: Option<Map<PinnedObject, nat>>, load: nat) -> Option<
    Map<PinnedObject, nat>,
> {
    replace_pin(
        replace_pin(replace_pin(pins, PinnedObject::SocketMap, load), PinnedObject::IpsMap, load),
        PinnedObject::RedirectorProg,
        load,
    )
}

proof fn lemma_replace_pin(m: Map<PinnedObject, nat>, o: PinnedObject, load: nat)
    ensures
        replace_pin(Some(m), o, load) == Some(m.insert(o, load)),
{
    let ops = pin_steps(o, m.contains_key(o));
    if m.contains_key(o) {
        let m1 = m.remove(o);
        assert(apply_pin_op(Some(m), ops[0], load) == Some(m1));
        let rest = ops.subrange(1, 2);
        assert(rest =~= seq![PinOp::Pin(o)]);
        assert(apply_pin_op(Some(m1), rest[0], load) == Some(m1.insert(o, load)));
        assert(rest.subrange(1, 1) =~= Seq::<PinOp>::empty());
        assert(m1.insert(o, load) =~= m.insert(o, load));
        assert(run_pin_ops(Some(m1.insert(o, load)), rest.subrange(1, 1), load) == Some(m1.insert(o, load)));
        assert(run_pin_ops(Some(m1), rest, load) == Some(m1.insert(o, load)));
        assert(run_pin_ops(Some(m), ops, load) == Some(m1.insert(o, load)));
    } else {
        assert(ops.subrange(1, 1) =~= Seq::<PinOp>::empty());
        assert(run_pin_ops(Some(m.insert(o, load)), ops.subrange(1, 1), load) == Some(m.insert(o, load)));
        assert(run_pin_ops(Some(m), ops, load) == Some(m.insert(o, load)));
    }
}

/// Loading the redirector never pins over an existing path, and a second
/// load replaces what the first pinned: the pins that stand afterwards are
/// exactly those of a single load.
pub proof fn redirector_load_idempotent(pins: Map<PinnedObject, nat>, first: nat, second: nat)
    ensures
        load_pins(Some(pins), second) is Some,
        load_pins(load_pins(Some(pins), first), second) == load_pins(Some(pins), second),
{
    let s = PinnedObject::SocketMap;
    let i = PinnedObject::IpsMap;
    let p = PinnedObject::RedirectorProg;
    lemma_replace_pin(pins, s, second);
    lemma_replace_pin(pins.insert(s, second), i, second);
    lemma_replace_pin(pins.insert(s, second).insert(i, second), p, second);
    lemma_replace_pin(pins, s, first);
    lemma_replace_pin(pins.insert(s, first), i, first);
    lemma_replace_pin(pins.insert(s, first).insert(i, first), p, first);
    let once = pins.insert(s, first).insert(i, first).insert(p, first);
    lemma_replace_pin(once, s, second);
    lemma_replace_pin(once.insert(s, second), i, second);
    lemma_replace_pin(once.insert(s, second).insert(i, second), p, second);
    assert(once.insert(s, second).insert(i, second).insert(p, second) =~= pins.insert(
        s,
        second,
    ).insert(i, second).insert(p, second));
}

} // verus!

use vstd::prelude::*;

verus! {

/// What the accept loop sees happen.
#[derive(Clone, Copy, Debug, PartialEq, Eq, Structural)]
pub enum ServerEvent {
    /// A client connection arrived.
    Accept,
    /// A proxied connection ended.
    Close,
    /// The operator asked the server to drain.
    Terminate,
}

/// The drain state as a value: whether draining, and how many connections
/// are live.
pub struct DrainView {
    pub draining: bool,
    pub connections: nat,
}

/// The drain state after one event, and whether an arriving connection was
/// taken.
pub open spec fn drain_step(v: DrainView, e: ServerEvent) -> (DrainView, bool) {
    match e {
        ServerEvent::Accept => if !v.draining && v.connections < u64::MAX {
            (DrainView { draining: false, connections: v.connections + 1 }, true)
        } else {
            (v, false)
        },
        ServerEvent::Close => if v.connections > 0 {
            (DrainView { draining: v.draining, connections: (v.connections - 1) as nat }, false)
        } else {
            (v, false)
        },
        ServerEvent::Terminate => (DrainView { draining: true, connections: v.connections }, false),
    }
}

/// The drain state after a run of events.
pub open spec fn drain_run(v: DrainView, evs: Seq<ServerEvent>) -> DrainView
    decreases evs.len(),
{
    if evs.len() == 0 {
        v
    } else {
        drain_step(drain_run(v, evs.drop_last()), evs.last()).0
    }
}

/// How many connections a run of events took.
pub open spec fn accepted_in(v: DrainView, evs: Seq<ServerEvent>) -> nat
    decreases evs.len(),
{
    if evs.len() == 0 {
        0
    } else {
        accepted_in(v, evs.drop_last()) + if drain_step(drain_run(v, evs.drop_last()), evs.last()).1 {
            1nat
        } else {
            0nat
        }
    }
}

/// The process may end: it drains, and no connection is live.
pub open spec fn may_exit_spec(v: DrainView) -> bool {
    v.draining && v.connections == 0
}

/// The server's drain state: the `draining` flag and the live-connection count.
pub struct DrainState {
    draining: bool,
    connections: u64,
}

impl DrainState {
    pub closed spec fn view(&self) -> DrainView {
        DrainView { draining: self.draining, connections: self.connections as nat }
    }

    /// A server that takes connections and has none.
    pub fn new() -> (r: DrainState)
        ensures
            r@ == (DrainView { draining: false, connections: 0 }),
    {
        DrainState { draining: false, connections: 0 }
    }

    /// A connection arrived: it is taken, and counted, unless the server drains.
    pub fn on_accept(&mut self) -> (r: bool)
        ensures
            (final(self)@, r) == drain_step(old(self)@, ServerEvent::Accept),
    {
        if !self.draining && self.connections < u64::MAX {
            self.connections = self.connections + 1;
            true
        } else {
            false
        }
    }

    /// A proxied connection ended.
    pub fn on_close(&mut self)
        ensures
            final(self)@ == drain_step(old(self)@, ServerEvent::Close).0,
    {
        if self.connections > 0 {
            self.connections = self.connections - 1;
        }
    }

    /// The operator asked for a drain: no connection is taken from now on.
    pub fn on_terminate(&mut self)
        ensures
            final(self)@ == drain_step(old(self)@, ServerEvent::Terminate).0,
    {
        self.draining = true;
    }

    /// Whether the server drains.
    pub fn is_draining(&self) -> (r: bool)
        ensures
            r == self@.draining,
    {
        self.draining
    }

    /// How many connections are live.
    pub fn connections(&self) -> (r: u64)
        ensures
            r == self@.connections,
    {
        self.connections
    }

    /// Whether the process may end now.
    pub fn may_exit(&self) -> (r: bool)
        ensures
            r == may_exit_spec(self@),
    {
        self.draining && self.connections == 0
    }
}

/// Once the server drains, it takes no new connection whatever happens,
/// stays draining, never counts more live connections than it had, and
/// may end only when every connection it had has closed.
pub proof fn drain_completeness(v: DrainView, evs: Seq<ServerEvent>)
    requires
        v.draining,
    ensures
        accepted_in(v, evs) == 0,
        drain_run(v, evs).draining,
        drain_run(v, evs).connections <= v.connections,
        may_exit_spec(drain_run(v, evs)) <==> drain_run(v, evs).connections == 0,
    decreases evs.len(),
{
    if evs.len() > 0 {
        drain_completeness(v, evs.drop_last());
    }
}

} // verus!

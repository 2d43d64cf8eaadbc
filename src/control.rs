use vstd::prelude::*;

verus! {

/// The most descriptors one control message carries (the kernel's limit for
/// `SCM_RIGHTS`).
pub const SCM_MAX_FD: usize = 253;

/// The successor's request for the live connections: `INIT`.
pub open spec fn init_frame() -> Seq<u8> {
    seq![73u8, 78u8, 73u8, 84u8]
}

/// The predecessor's reply that carries the descriptors: `SEND_FS`.
pub open spec fn send_fs_frame() -> Seq<u8> {
    seq![83u8, 69u8, 78u8, 68u8, 95u8, 70u8, 83u8]
}

/// The successor's word that it has adopted the descriptors: `SHUTDOWN`.
pub open spec fn shutdown_frame() -> Seq<u8> {
    seq![83u8, 72u8, 85u8, 84u8, 68u8, 79u8, 87u8, 78u8]
}

fn frame_of(s: Ghost<Seq<u8>>, bytes: &[u8]) -> (r: Vec<u8>)
    requires
        bytes@ == s@,
    ensures
        r@ == s@,
{
    let mut r: Vec<u8> = Vec::new();
    let mut i: usize = 0;
    while i < bytes.len()
        invariant
            i <= bytes@.len(),
            r@ == bytes@.take(i as int),
        decreases bytes@.len() - i,
    {
        r.push(bytes[i]);
        i = i + 1;
        assert(r@ =~= bytes@.take(i as int));
    }
    assert(bytes@.take(i as int) =~= bytes@);
    r
}

/// The bytes of the `INIT` request.
pub fn stream_init() -> (r: Vec<u8>)
    ensures
        r@ == init_frame(),
{
    let b: [u8; 4] = [73u8, 78u8, 73u8, 84u8];
    assert(b@ =~= init_frame());
    frame_of(Ghost(init_frame()), &b)
}

/// The bytes of the `SEND_FS` reply.
pub fn send_fs() -> (r: Vec<u8>)
    ensures
        r@ == send_fs_frame(),
{
    let b: [u8; 7] = [83u8, 69u8, 78u8, 68u8, 95u8, 70u8, 83u8];
    assert(b@ =~= send_fs_frame());
    frame_of(Ghost(send_fs_frame()), &b)
}

/// The bytes of the `SHUTDOWN` notice.
pub fn stream_shutdown() -> (r: Vec<u8>)
    ensures
        r@ == shutdown_frame(),
{
    let b: [u8; 8] = [83u8, 72u8, 85u8, 84u8, 68u8, 79u8, 87u8, 78u8];
    assert(b@ =~= shutdown_frame());
    frame_of(Ghost(shutdown_frame()), &b)
}

fn bytes_equal(a: &[u8], b: &[u8]) -> (r: bool)
    ensures
        r == (a@ == b@),
{
    if a.len() != b.len() {
        return false;
    }
    let mut i: usize = 0;
    while i < a.len()
        invariant
            a@.len() == b@.len(),
            i <= a@.len(),
            forall|j: int| 0 <= j < i ==> a@[j] == b@[j],
        decreases a@.len() - i,
    {
        if a[i] != b[i] {
            return false;
        }
        i = i + 1;
    }
    assert(a@ =~= b@);
    true
}

/// A violation of the handoff protocol seen by the successor.
#[derive(Clone, Copy, Debug, PartialEq, Eq, Structural)]
pub enum ControlSocketError {
    /// The predecessor's reply was not `SEND_FS`.
    InvalidData,
    /// The reply's ancillary data did not hold valid descriptors.
    InvalidFds,
}

/// The sentence that describes an error.
pub open spec fn error_text(e: ControlSocketError) -> Seq<char> {
    match e {
        ControlSocketError::InvalidData => "The previous control server send back invalid data."@,
        ControlSocketError::InvalidFds => "The previous control server did not send back valid file descriptors."@,
    }
}

impl ControlSocketError {
    /// A sentence that describes the error.
    pub fn message(&self) -> (r: String)
        ensures
            r@ == error_text(*self),
    {
        proof {
            reveal_strlit("The previous control server send back invalid data.");
            reveal_strlit("The previous control server did not send back valid file descriptors.");
        }
        match self {
            ControlSocketError::InvalidData => String::from_str(
                "The previous control server send back invalid data.",
            ),
            ControlSocketError::InvalidFds => String::from_str(
                "The previous control server did not send back valid file descriptors.",
            ),
        }
    }
}

/// The ancillary part of the predecessor's reply, as received.
#[derive(Clone, Debug)]
pub enum Ancillary {
    /// No ancillary message came with the reply.
    Missing,
    /// A well-formed message carrying these descriptors.
    Rights(Vec<i32>),
    /// A message came that could not be read.
    Malformed,
}

/// What the successor adopts from a reply: `Some` descriptors, after which it
/// sends `SHUTDOWN`; `None` when no descriptors came.
pub open spec fn adopted(payload: Seq<u8>, anc: Ancillary) -> Result<
    Option<Seq<i32>>,
    ControlSocketError,
> {
    if payload != send_fs_frame() {
        Err(ControlSocketError::InvalidData)
    } else {
        match anc {
            Ancillary::Missing => Ok(None),
            Ancillary::Rights(fds) => Ok(Some(fds@)),
            Ancillary::Malformed => Err(ControlSocketError::InvalidFds),
        }
    }
}

/// Reads the predecessor's reply to `INIT`: its data must be `SEND_FS`;
/// the descriptors it carries are adopted.
pub fn read_handoff(payload: &[u8], ancillary: Ancillary) -> (r: Result<
    Option<Vec<i32>>,
    ControlSocketError,
>)
    ensures
        r matches Ok(Some(v)) ==> adopted(payload@, ancillary) == Ok::<
            Option<Seq<i32>>,
            ControlSocketError,
        >(Some(v@)),
        r matches Ok(None) ==> adopted(payload@, ancillary) == Ok::<
            Option<Seq<i32>>,
            ControlSocketError,
        >(None),
        r matches Err(e) ==> adopted(payload@, ancillary) == Err::<
            Option<Seq<i32>>,
            ControlSocketError,
        >(e),
{
    let expected = send_fs();
    if !bytes_equal(payload, expected.as_slice()) {
        return Err(ControlSocketError::InvalidData);
    }
    match ancillary {
        Ancillary::Missing => Ok(None),
        Ancillary::Rights(fds) => Ok(Some(fds)),
        Ancillary::Malformed => Err(ControlSocketError::InvalidFds),
    }
}

/// A message the predecessor receives on the control channel.
#[derive(Clone, Copy, Debug, PartialEq, Eq, Structural)]
pub enum ControlRequest {
    /// `INIT`: hand over the live connections.
    Init,
    /// `SHUTDOWN`: the successor has adopted them.
    Shutdown,
    /// Anything else.
    Unknown,
}

/// Tells the predecessor's messages apart.
pub fn classify_request(payload: &[u8]) -> (r: ControlRequest)
    ensures
        r == ControlRequest::Init <==> payload@ == init_frame(),
        r == ControlRequest::Shutdown <==> payload@ == shutdown_frame(),
{
    let init = stream_init();
    let shutdown = stream_shutdown();
    if bytes_equal(payload, init.as_slice()) {
        ControlRequest::Init
    } else if bytes_equal(payload, shutdown.as_slice()) {
        ControlRequest::Shutdown
    } else {
        ControlRequest::Unknown
    }
}

/// The descriptors one handoff carries: the first `SCM_MAX_FD` registered.
pub open spec fn handoff_batch(fds: Seq<i32>) -> Seq<i32> {
    if fds.len() <= SCM_MAX_FD {
        fds
    } else {
        fds.take(SCM_MAX_FD as int)
    }
}

/// The predecessor's live connections, by descriptor, in the order they
/// were registered.
pub struct HandoffRegistry {
    fds: Vec<i32>,
}

impl HandoffRegistry {
    /// The registered descriptors.
    pub closed spec fn view(&self) -> Seq<i32> {
        self.fds@
    }

    /// An empty registry.
    pub fn new() -> (r: HandoffRegistry)
        ensures
            r@ == Seq::<i32>::empty(),
    {
        HandoffRegistry { fds: Vec::new() }
    }

    /// How many connections are registered.
    pub fn len(&self) -> (r: usize)
        ensures
            r == self@.len(),
    {
        self.fds.len()
    }

    /// Registers a live connection.
    pub fn register(&mut self, fd: i32)
        ensures
            final(self)@ == old(self)@.push(fd),
    {
        self.fds.push(fd);
    }

    /// Forgets a connection that has ended: the first entry of `fd`, if any.
    pub fn release(&mut self, fd: i32) -> (r: bool)
        ensures
            r <==> old(self)@.contains(fd),
            !r ==> final(self)@ == old(self)@,
            r ==> exists|i: int| 0 <= i < old(self)@.len() && old(self)@[i] == fd
                && (forall|j: int| 0 <= j < i ==> old(self)@[j] != fd) && final(self)@
                == old(self)@.remove(i),
    {
        let mut i: usize = 0;
        while i < self.fds.len()
            invariant
                i <= self.fds@.len(),
                self.fds@ == old(self).fds@,
                forall|j: int| 0 <= j < i ==> self.fds@[j] != fd,
            decreases self.fds@.len() - i,
        {
            if self.fds[i] == fd {
                self.fds.remove(i);
                return true;
            }
            i = i + 1;
        }
        false
    }

    /// Hands over the live connections: returns the batch the reply carries
    /// and empties the registry.
    pub fn take_for_handoff(&mut self) -> (r: Vec<i32>)
        ensures
            r@ == handoff_batch(old(self)@),
            final(self)@ == Seq::<i32>::empty(),
    {
        let mut out: Vec<i32> = Vec::new();
        let n = if self.fds.len() < SCM_MAX_FD { self.fds.len() } else { SCM_MAX_FD };
        let mut i: usize = 0;
        while i < n
            invariant
                n <= self.fds@.len(),
                n == if self.fds@.len() <= SCM_MAX_FD { self.fds@.len() } else { SCM_MAX_FD as nat },
                self.fds@ == old(self).fds@,
                i <= n,
                out@ == self.fds@.take(i as int),
            decreases n - i,
        {
            out.push(self.fds[i]);
            i = i + 1;
            assert(out@ =~= self.fds@.take(i as int));
        }
        assert(out@ =~= handoff_batch(old(self)@));
        self.fds = Vec::new();
        out
    }
}

/// When the reply carries the batch that the predecessor took from its
/// registry at `INIT`, the successor adopts exactly the descriptors that the
/// predecessor held, as a multiset, up to the per-message limit.
pub proof fn handoff_conserves_descriptors(registry: Seq<i32>, sent: Vec<i32>)
    requires
        sent@ == handoff_batch(registry),
    ensures
        adopted(send_fs_frame(), Ancillary::Rights(sent)) matches Ok(Some(got)) && got.to_multiset()
            == handoff_batch(registry).to_multiset(),
        registry.len() <= SCM_MAX_FD ==> (adopted(send_fs_frame(), Ancillary::Rights(sent)) matches Ok(
            Some(got),
        ) && got.to_multiset() == registry.to_multiset()),
{
}

} // verus!

use vstd::prelude::*;
use std::collections::VecDeque;
use crate::buffer::{resolves_as, sizes_kept, BufRing, BufferHolder};
use crate::cqe::{lift_result, selected_bid, CqeResult};
use crate::error::Error;

verus! {

/// Linux errno reported by a timeout that expired.
pub const ETIME: u32 = 62;
/// Linux errno reported by an operation that was cancelled.
pub const ECANCELED: u32 = 125;
/// Words of parameter memory for a socket address: 128 bytes of storage
/// followed by one word whose low 32 bits hold the address length.
pub const ADDR_WORDS: usize = 17;
/// Size in bytes of socket-address storage.
pub const ADDR_STORAGE_LEN: u64 = 128;

/// The file descriptor a successful accept completion carries.
pub open spec fn lift_fd(r: Result<u32, Error>) -> Result<i32, Error> {
    match r {
        Ok(n) => Ok(n as i32),
        Err(e) => Err(e),
    }
}

/// Pending results of a streaming accept, oldest first.
pub struct AcceptMulti {
    results: VecDeque<Result<i32, Error>>,
}

impl AcceptMulti {
    pub closed spec fn queue(&self) -> Seq<Result<i32, Error>> {
        self.results@
    }

    /// An empty queue.
    pub fn new() -> (r: AcceptMulti)
        ensures
            r.queue() == Seq::<Result<i32, Error>>::empty(),
    {
        AcceptMulti { results: VecDeque::new() }
    }

    /// The number of pending results.
    pub fn len(&self) -> (r: usize)
        ensures
            r == self.queue().len(),
    {
        self.results.len()
    }

    /// Takes the oldest pending result.
    pub fn next(&mut self) -> (r: Option<Result<i32, Error>>)
        ensures
            old(self).queue().len() == 0 ==> r is None && final(self).queue() == old(self).queue(),
            old(self).queue().len() > 0 ==> r == Some(old(self).queue()[0]) && final(self).queue()
                == old(self).queue().drop_first(),
    {
        self.results.pop_front()
    }

    /// Records an intermediate completion: one accepted descriptor or error.
    pub fn update(&mut self, cqe: CqeResult)
        ensures
            final(self).queue() == old(self).queue().push(lift_fd(cqe.result)),
    {
        let item = match cqe.result {
            Ok(n) => Ok(n as i32),
            Err(e) => Err(e),
        };
        self.results.push_back(item);
    }
}

/// Pending buffers of a streaming receive, oldest first.
pub struct RecvMulti {
    results: VecDeque<Result<BufferHolder, Error>>,
}

impl RecvMulti {
    pub closed spec fn queue(&self) -> Seq<Result<BufferHolder, Error>> {
        self.results@
    }

    /// An empty queue.
    pub fn new() -> (r: RecvMulti)
        ensures
            r.queue().len() == 0,
    {
        RecvMulti { results: VecDeque::new() }
    }

    /// The number of pending buffers and errors.
    pub fn len(&self) -> (r: usize)
        ensures
            r == self.queue().len(),
    {
        self.results.len()
    }

    /// Takes the oldest pending buffer or error.
    pub fn next(&mut self) -> (r: Option<Result<BufferHolder, Error>>)
        ensures
            old(self).queue().len() == 0 ==> r is None && final(self).queue() == old(self).queue(),
            old(self).queue().len() > 0 ==> r == Some(old(self).queue()[0]) && final(self).queue()
                == old(self).queue().drop_first(),
    {
        self.results.pop_front()
    }

    /// Records an intermediate completion: the buffer it filled, or its error.
    pub fn update(&mut self, cqe: CqeResult, ring: &mut BufRing)
        requires
            old(ring).wf(),
        ensures
            sizes_kept(*old(ring), *final(ring)),
            final(self).queue().len() == old(self).queue().len() + 1,
            final(self).queue().drop_last() == old(self).queue(),
            resolves_as(*old(ring), *final(ring), cqe, final(self).queue().last()),
    {
        let item = ring.get(cqe);
        self.results.push_back(item);
        proof {
            assert(self.results@.drop_last() =~= old(self).results@);
        }
    }
}

/// The opcode of a submitted operation.
#[derive(Clone, Copy, PartialEq, Eq, Structural, Debug)]
pub enum OpKind {
    Accept,
    AcceptMulti,
    Connect,
    Read,
    Recv,
    RecvMulti,
    RecvMsg,
    Send,
    SendMsg,
    Write,
    Shutdown,
    Close,
    Timeout,
}

/// What an operation owns while the kernel may use it: the parameter
/// memory its submission entry points into, stable across moves because it
/// lives on the heap, and the queue of a multi-shot opcode.
pub enum Payload {
    /// Peer address storage and its length word.
    Accept { addr: Vec<u64> },
    AcceptMulti(AcceptMulti),
    /// The encoded address to connect to.
    Connect { addr: Vec<u64> },
    Read,
    Recv,
    RecvMulti(RecvMulti),
    /// Peer address storage, the io vector and the message header.
    RecvMsg { mem: Vec<u64> },
    /// An owned copy of the bytes to send.
    Send { buf: Vec<u8> },
    /// An owned copy of the bytes, the destination address and the message header.
    SendMsg { buf: Vec<u8>, mem: Vec<u64> },
    /// An owned copy of the bytes to write.
    Write { buf: Vec<u8> },
    Shutdown,
    Close,
    /// Seconds and nanoseconds.
    Timeout { spec: Vec<u64> },
}

/// What a completed operation yields.
pub enum Output {
    /// A new connection and the peer address storage.
    Accepted { fd: i32, addr: Vec<u64> },
    /// A descriptor from the last completion of a streaming accept.
    Fd(i32),
    /// Success with no value.
    Done,
    /// A number of bytes transferred.
    Count(usize),
    /// A filled provided buffer.
    Buffer(BufferHolder),
    /// A filled provided buffer and the peer address storage.
    BufferFrom { buf: BufferHolder, addr: Vec<u64> },
}

impl Payload {
    pub open spec fn kind(&self) -> OpKind {
        match self {
            Payload::Accept { .. } => OpKind::Accept,
            Payload::AcceptMulti(_) => OpKind::AcceptMulti,
            Payload::Connect { .. } => OpKind::Connect,
            Payload::Read => OpKind::Read,
            Payload::Recv => OpKind::Recv,
            Payload::RecvMulti(_) => OpKind::RecvMulti,
            Payload::RecvMsg { .. } => OpKind::RecvMsg,
            Payload::Send { .. } => OpKind::Send,
            Payload::SendMsg { .. } => OpKind::SendMsg,
            Payload::Write { .. } => OpKind::Write,
            Payload::Shutdown => OpKind::Shutdown,
            Payload::Close => OpKind::Close,
            Payload::Timeout { .. } => OpKind::Timeout,
        }
    }

    /// The number of intermediate results waiting in a multi-shot queue.
    pub open spec fn queued(&self) -> nat {
        match self {
            Payload::AcceptMulti(m) => m.queue().len(),
            Payload::RecvMulti(m) => m.queue().len(),
            _ => 0,
        }
    }

    pub open spec fn is_multi_shot(&self) -> bool {
        self.kind() == OpKind::AcceptMulti || self.kind() == OpKind::RecvMulti
    }

    /// The opcode of this payload.
    pub fn op_kind(&self) -> (r: OpKind)
        ensures
            r == self.kind(),
    {
        match self {
            Payload::Accept { .. } => OpKind::Accept,
            Payload::AcceptMulti(_) => OpKind::AcceptMulti,
            Payload::Connect { .. } => OpKind::Connect,
            Payload::Read => OpKind::Read,
            Payload::Recv => OpKind::Recv,
            Payload::RecvMulti(_) => OpKind::RecvMulti,
            Payload::RecvMsg { .. } => OpKind::RecvMsg,
            Payload::Send { .. } => OpKind::Send,
            Payload::SendMsg { .. } => OpKind::SendMsg,
            Payload::Write { .. } => OpKind::Write,
            Payload::Shutdown => OpKind::Shutdown,
            Payload::Close => OpKind::Close,
            Payload::Timeout { .. } => OpKind::Timeout,
        }
    }

    /// Zeroed address storage with the length word set to the storage size.
    pub fn accept() -> (r: Payload)
        ensures
            r matches Payload::Accept { addr } && addr@.len() == ADDR_WORDS && addr@[16]
                == ADDR_STORAGE_LEN && forall|i: int| 0 <= i < 16 ==> addr@[i] == 0,
    {
        let mut addr: Vec<u64> = vec![0u64; ADDR_WORDS];
        addr.set(16, ADDR_STORAGE_LEN);
        Payload::Accept { addr }
    }

    /// A streaming accept with an empty queue.
    pub fn accept_multi() -> (r: Payload)
        ensures
            r.kind() == OpKind::AcceptMulti,
            r.queued() == 0,
    {
        Payload::AcceptMulti(AcceptMulti::new())
    }

    /// A streaming receive with an empty queue.
    pub fn recv_multi() -> (r: Payload)
        ensures
            r.kind() == OpKind::RecvMulti,
            r.queued() == 0,
    {
        Payload::RecvMulti(RecvMulti::new())
    }

    /// A write that owns a copy of `data`.
    pub fn write(data: &[u8]) -> (r: Payload)
        ensures
            r matches Payload::Write { buf } && buf@ == data@,
    {
        Payload::Write { buf: vstd::slice::slice_to_vec(data) }
    }

    /// A send that owns a copy of `data`.
    pub fn send(data: &[u8]) -> (r: Payload)
        ensures
            r matches Payload::Send { buf } && buf@ == data@,
    {
        Payload::Send { buf: vstd::slice::slice_to_vec(data) }
    }

    /// A timeout of `sec` seconds and `nsec` nanoseconds.
    pub fn timeout(sec: u64, nsec: u32) -> (r: Payload)
        ensures
            r matches Payload::Timeout { spec } && spec@ == seq![sec, nsec as u64],
    {
        let mut spec: Vec<u64> = Vec::new();
        spec.push(sec);
        spec.push(nsec as u64);
        proof {
            assert(spec@ =~= seq![sec, nsec as u64]);
        }
        Payload::Timeout { spec }
    }

    /// Records an intermediate completion of a multi-shot opcode; other
    /// opcodes have nothing to record.
    pub fn update(&mut self, cqe: CqeResult, ring: &mut BufRing)
        requires
            old(ring).wf(),
        ensures
            sizes_kept(*old(ring), *final(ring)),
            updated(*old(self), *final(self), cqe, *old(ring), *final(ring)),
    {
        match self {
            Payload::AcceptMulti(m) => m.update(cqe),
            Payload::RecvMulti(m) => m.update(cqe, ring),
            _ => {},
        }
    }

    /// Maps the terminal completion of the operation to its output.
    /// An error result is returned as is, except for a timeout, where an
    /// expiry or a cancellation is success and any other success is
    /// `TimedOut`. Opcodes that read into a provided buffer resolve it
    /// through the ring.
    pub fn complete(self, cqe: CqeResult, ring: &mut BufRing) -> (r: Result<Output, Error>)
        requires
            old(ring).wf(),
        ensures
            sizes_kept(*old(ring), *final(ring)),
            completes_as(self, cqe, r, *old(ring), *final(ring)),
    {
        match self {
            Payload::Accept { addr } => match cqe.result {
                Ok(n) => Ok(Output::Accepted { fd: n as i32, addr }),
                Err(e) => Err(e),
            },
            Payload::AcceptMulti(_) => match cqe.result {
                Ok(n) => Ok(Output::Fd(n as i32)),
                Err(e) => Err(e),
            },
            Payload::Read | Payload::Recv | Payload::RecvMulti(_) => match ring.get(cqe) {
                Ok(h) => Ok(Output::Buffer(h)),
                Err(e) => Err(e),
            },
            Payload::RecvMsg { mem } => match ring.get(cqe) {
                Ok(h) => Ok(Output::BufferFrom { buf: h, addr: mem }),
                Err(e) => Err(e),
            },
            Payload::Send { .. } | Payload::SendMsg { .. } | Payload::Write { .. } => match cqe.result {
                Ok(n) => Ok(Output::Count(n as usize)),
                Err(e) => Err(e),
            },
            Payload::Connect { .. } | Payload::Shutdown | Payload::Close => match cqe.result {
                Ok(_) => Ok(Output::Done),
                Err(e) => Err(e),
            },
            Payload::Timeout { .. } => match cqe.result {
                Ok(_) => Err(Error::TimedOut),
                Err(Error::Kernel(errno)) => {
                    if errno == ETIME || errno == ECANCELED {
                        Ok(Output::Done)
                    } else {
                        Err(Error::Kernel(errno))
                    }
                },
                Err(e) => Err(e),
            },
        }
    }
}

/// Whether an opcode's completion resolves a provided buffer.
pub open spec fn reads_buffer(k: OpKind) -> bool {
    k == OpKind::Read || k == OpKind::Recv || k == OpKind::RecvMulti || k == OpKind::RecvMsg
}

/// The output a terminal completion maps to, opcode by opcode; opcodes
/// that read into a provided buffer resolve it as `BufRing::get` does, and
/// only those touch the ring.
pub open spec fn completes_as(
    p: Payload,
    cqe: CqeResult,
    r: Result<Output, Error>,
    before: BufRing,
    after: BufRing,
) -> bool {
    &&& !reads_buffer(p.kind()) ==> after == before
    &&& completes_with(p, cqe, r, before, after)
}

/// The buffer an output carries, or the error.
pub open spec fn as_buffer(r: Result<Output, Error>) -> Result<BufferHolder, Error> {
    match r {
        Ok(Output::Buffer(h)) => Ok(h),
        Ok(Output::BufferFrom { buf, .. }) => Ok(buf),
        Ok(_) => Err(Error::InvalidInput),
        Err(e) => Err(e),
    }
}

/// The output of each opcode's terminal completion.
pub open spec fn completes_with(
    p: Payload,
    cqe: CqeResult,
    r: Result<Output, Error>,
    before: BufRing,
    after: BufRing,
) -> bool {
    match p {
        Payload::Accept { addr } => match cqe.result {
            Ok(n) => r matches Ok(Output::Accepted { fd, addr: a }) && fd == n as i32 && a == addr,
            Err(e) => r == Err::<Output, Error>(e),
        },
        Payload::AcceptMulti(_) => match cqe.result {
            Ok(n) => r matches Ok(Output::Fd(fd)) && fd == n as i32,
            Err(e) => r == Err::<Output, Error>(e),
        },
        Payload::Read | Payload::Recv | Payload::RecvMulti(_) => {
            &&& r matches Ok(o) ==> o is Buffer
            &&& resolves_as(before, after, cqe, as_buffer(r))
        },
        Payload::RecvMsg { mem } => {
            &&& r matches Ok(o) ==> (o matches Output::BufferFrom { addr, .. } && addr == mem)
            &&& resolves_as(before, after, cqe, as_buffer(r))
        },
        Payload::Send { .. } | Payload::SendMsg { .. } | Payload::Write { .. } => match cqe.result {
            Ok(n) => r matches Ok(Output::Count(c)) && c == n as usize,
            Err(e) => r == Err::<Output, Error>(e),
        },
        Payload::Connect { .. } | Payload::Shutdown | Payload::Close => match cqe.result {
            Ok(_) => r matches Ok(Output::Done),
            Err(e) => r == Err::<Output, Error>(e),
        },
        Payload::Timeout { .. } => match cqe.result {
            Ok(_) => r == Err::<Output, Error>(Error::TimedOut),
            Err(Error::Kernel(errno)) => if errno == ETIME || errno == ECANCELED {
                r matches Ok(Output::Done)
            } else {
                r == Err::<Output, Error>(Error::Kernel(errno))
            },
            Err(e) => r == Err::<Output, Error>(e),
        },
    }
}

/// What one intermediate completion does to a payload: a streaming accept
/// queues the descriptor or error, a streaming receive queues the buffer
/// the ring resolves; other payloads and the ring stay as they are.
pub open spec fn updated(
    before: Payload,
    after: Payload,
    cqe: CqeResult,
    rb: BufRing,
    ra: BufRing,
) -> bool {
    match before {
        Payload::AcceptMulti(m) => (after matches Payload::AcceptMulti(m2) && m2.queue()
            == m.queue().push(lift_fd(cqe.result))) && ra == rb,
        Payload::RecvMulti(m) => after matches Payload::RecvMulti(m2) && m2.queue().len()
            == m.queue().len() + 1 && m2.queue().drop_last() == m.queue() && resolves_as(
            rb,
            ra,
            cqe,
            m2.queue().last(),
        ),
        _ => after == before && ra == rb,
    }
}

/// What a queued receive result says of the completion it came from,
/// whatever the ring held.
pub open spec fn item_from(c: CqeResult, item: Result<BufferHolder, Error>) -> bool {
    &&& c.result is Err ==> item == Err::<BufferHolder, Error>(c.result->Err_0)
    &&& c.result is Ok && selected_bid(c.flags) is None ==> item == Err::<BufferHolder, Error>(
        Error::BufferNotFound,
    )
    &&& item matches Ok(h) ==> h.spec_owned() && selected_bid(c.flags) == Some(h.spec_bid())
        && c.result is Ok && h.spec_len() == c.result->Ok_0
}

/// A payload fed the first `i` completions of `l`, in order, once each.
pub open spec fn fed(before: Payload, after: Payload, l: Seq<CqeResult>, i: int) -> bool {
    match before {
        Payload::AcceptMulti(m) => after matches Payload::AcceptMulti(m2) && m2.queue() == m.queue()
            + l.take(i).map_values(|c: CqeResult| lift_fd(c.result)),
        Payload::RecvMulti(m) => after matches Payload::RecvMulti(m2) && m2.queue().len()
            == m.queue().len() + i && m2.queue().take(m.queue().len() as int) == m.queue() && forall|
            j: int,
        | 0 <= j < i ==> #[trigger] item_from(l[j], m2.queue()[m.queue().len() + j]),
        _ => after == before,
    }
}

pub proof fn lemma_fed_start(p: Payload, l: Seq<CqeResult>)
    ensures
        fed(p, p, l, 0),
{
    match p {
        Payload::AcceptMulti(m) => {
            assert(m.queue() + l.take(0).map_values(|c: CqeResult| lift_fd(c.result)) =~= m.queue());
        },
        Payload::RecvMulti(m) => {
            assert(m.queue().take(m.queue().len() as int) =~= m.queue());
        },
        _ => {},
    }
}

pub proof fn lemma_fed_step(
    p0: Payload,
    p1: Payload,
    p2: Payload,
    l: Seq<CqeResult>,
    i: int,
    rb: BufRing,
    ra: BufRing,
)
    requires
        0 <= i < l.len(),
        fed(p0, p1, l, i),
        updated(p1, p2, l[i], rb, ra),
    ensures
        fed(p0, p2, l, i + 1),
{
    match p0 {
        Payload::AcceptMulti(m) => {
            let f = |c: CqeResult| lift_fd(c.result);
            assert(l.take(i + 1) =~= l.take(i).push(l[i]));
            assert(l.take(i + 1).map_values(f) =~= l.take(i).map_values(f).push(f(l[i])));
            if let (Payload::AcceptMulti(m1), Payload::AcceptMulti(m2)) = (p1, p2) {
                assert(m2.queue() =~= m.queue() + l.take(i + 1).map_values(f));
            }
        },
        Payload::RecvMulti(m) => {
            if let (Payload::RecvMulti(m1), Payload::RecvMulti(m2)) = (p1, p2) {
                let q = m2.queue();
                let n = m.queue().len();
                assert(q.drop_last() == m1.queue());
                assert(q.take(n as int) =~= m.queue()) by {
                    assert forall|k: int| 0 <= k < n implies q.take(n as int)[k] == m.queue()[k] by {
                        assert(q[k] == m1.queue()[k]);
                        assert(m1.queue().take(n as int)[k] == m1.queue()[k]);
                    }
                }
                assert forall|j: int| 0 <= j < i + 1 implies #[trigger] item_from(l[j], q[n + j]) by {
                    if j < i {
                        assert(q[n + j] == m1.queue()[n + j]);
                    } else {
                        assert(q[n + j] == q.last());
                    }
                }
            }
        },
        _ => {},
    }
}

} // verus!

use vstd::prelude::*;
use crate::buffer::{released, sizes_kept, BufRing, BufferHolder};

verus! {

/// What a byte stream's read side does next.
#[derive(Clone, Copy, PartialEq, Eq, Structural, Debug)]
pub enum FillStep {
    /// Bytes `start..end` of the held buffer are ready for the caller;
    /// an empty range is the end of the stream.
    Ready { start: usize, end: usize },
    /// Nothing is buffered: a read must be submitted.
    NeedRead,
}

/// A holder given back to the ring: a loaned buffer of the ring is
/// published again; any other holder leaves the ring as it is.
pub open spec fn returned(before: BufRing, after: BufRing, held: Option<BufferHolder>) -> bool {
    match held {
        Some(h) => if h.spec_owned() && h.spec_bid() < before.spec_buf_cnt() && before.is_loaned(
            h.spec_bid(),
        ) {
            released(before, after, h.spec_bid())
        } else {
            after == before
        },
        None => after == before,
    }
}

/// The buffered read side of a byte stream: the provided buffer of the
/// last read and how far the caller has consumed it.
pub struct ReadCursor {
    buf: Option<BufferHolder>,
    pos: usize,
}

impl ReadCursor {
    pub closed spec fn held(&self) -> Option<BufferHolder> {
        self.buf
    }

    pub closed spec fn position(&self) -> usize {
        self.pos
    }

    pub open spec fn wf(&self) -> bool {
        self.held() matches Some(h) ==> self.position() <= h.spec_len()
    }

    /// The bytes still to hand out.
    pub open spec fn remaining(&self) -> nat {
        match self.held() {
            Some(h) => (h.spec_len() - self.position()) as nat,
            None => 0,
        }
    }

    /// A cursor with nothing buffered.
    pub fn new() -> (r: ReadCursor)
        ensures
            r.held() is None,
            r.position() == 0,
            r.wf(),
    {
        ReadCursor { buf: None, pos: 0 }
    }

    /// The held buffer, if any.
    pub fn holder(&self) -> (r: &Option<BufferHolder>)
        ensures
            *r == self.held(),
    {
        &self.buf
    }

    /// Serves a read from the buffer if bytes remain in it; otherwise
    /// returns the exhausted buffer to the ring and asks for a read.
    pub fn fill(&mut self, ring: &mut BufRing) -> (r: FillStep)
        requires
            old(self).wf(),
            old(ring).wf(),
        ensures
            final(self).wf(),
            sizes_kept(*old(ring), *final(ring)),
            old(self).remaining() == 0 ==> returned(*old(ring), *final(ring), old(self).held()),
            old(self).remaining() > 0 ==> r == (FillStep::Ready {
                start: old(self).position(),
                end: old(self).held()->Some_0.spec_len(),
            }) && *final(self) == *old(self) && *final(ring) == *old(ring),
            old(self).remaining() == 0 ==> r == FillStep::NeedRead && final(self).held() is None
                && final(self).position() == 0,
    {
        let has_bytes = match &self.buf {
            Some(h) => self.pos < h.len(),
            None => false,
        };
        if has_bytes {
            let end = match &self.buf {
                Some(h) => h.len(),
                None => 0,
            };
            return FillStep::Ready { start: self.pos, end };
        }
        self.pos = 0;
        match self.buf.take() {
            Some(h) => {
                ring.release(h);
            },
            None => {},
        }
        FillStep::NeedRead
    }

    /// Stores the buffer a read returned and serves from its start; an
    /// empty buffer is the end of the stream.
    pub fn on_read(&mut self, h: BufferHolder, ring: &mut BufRing) -> (r: FillStep)
        requires
            old(ring).wf(),
        ensures
            sizes_kept(*old(ring), *final(ring)),
            returned(*old(ring), *final(ring), old(self).held()),
            final(self).wf(),
            final(self).held() == Some(h),
            final(self).position() == 0,
            r == (FillStep::Ready { start: 0, end: h.spec_len() }),
    {
        match self.buf.take() {
            Some(prev) => {
                ring.release(prev);
            },
            None => {},
        }
        let end = h.len();
        self.buf = Some(h);
        self.pos = 0;
        FillStep::Ready { start: 0, end }
    }

    /// Advances past `amt` handed-out bytes; consuming more than remain
    /// empties the cursor.
    pub fn consume(&mut self, amt: usize)
        requires
            old(self).wf(),
        ensures
            final(self).wf(),
            final(self).held() == old(self).held(),
            old(self).held() is Some ==> final(self).remaining() == if amt <= old(self).remaining() {
                (old(self).remaining() - amt) as nat
            } else {
                0nat
            },
            old(self).held() is Some && amt <= old(self).remaining() ==> final(self).position()
                == old(self).position() + amt,
            old(self).held() is None ==> *final(self) == *old(self),
    {
        let len = match &self.buf {
            Some(h) => h.len(),
            None => {
                return ;
            },
        };
        if amt <= len - self.pos {
            self.pos = self.pos + amt;
        } else {
            self.pos = len;
        }
    }
}

/// Bytes come out of a read cursor in order and each once: serving after
/// consuming `n` of the bytes served starts exactly `n` bytes further into
/// the same buffer, and consuming all of them leads to a new read.
pub proof fn lemma_in_order_delivery(c: ReadCursor, n: nat)
    requires
        c.wf(),
        c.held() is Some,
        n <= c.remaining(),
    ensures
        c.position() + n <= c.held()->Some_0.spec_len(),
        n == c.remaining() ==> c.position() + n == c.held()->Some_0.spec_len(),
{
}

} // verus!

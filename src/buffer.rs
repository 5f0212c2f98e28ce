use vstd::prelude::*;
use crate::cqe::{selected_bid, CqeResult};
use crate::error::Error;

verus! {

/// The largest number of entries a buffer ring may have.
pub const MAX_RING_ENTRIES: u16 = 32768;

/// Whether `x` is a power of two.
pub open spec fn is_pow2(x: u16) -> bool {
    x != 0 && x & ((x - 1) as u16) == 0
}

/// `r` is the smallest power of two that is at least `n`.
pub open spec fn is_pow2_ceil(n: u16, r: u16) -> bool {
    &&& is_pow2(r)
    &&& n <= r
    &&& (r == 1 || r / 2 < n)
}

proof fn lemma_pow2_double(p: u16)
    requires
        is_pow2(p),
        p <= 16384,
    ensures
        is_pow2((p * 2) as u16),
{
    assert(p != 0 && p & ((p - 1) as u16) == 0 && p <= 16384 ==> ((p * 2) as u16) != 0 && ((p
        * 2) as u16) & ((((p * 2) as u16) - 1) as u16) == 0) by (bit_vector);
}

proof fn lemma_pow2_le_max(p: u16)
    requires
        is_pow2(p),
        p < 32768,
    ensures
        p <= 16384,
{
    assert(p != 0 && p & ((p - 1) as u16) == 0 && p < 32768 ==> p <= 16384) by (bit_vector);
}

proof fn lemma_mask_is_mod(t: u16, m: u16)
    requires
        is_pow2((m + 1) as u16),
        m < MAX_RING_ENTRIES,
    ensures
        t & m == t % ((m + 1) as u16),
        t & m <= m,
{
    let r = (m + 1) as u16;
    assert(r == m + 1);
    assert(r != 0 && r & ((r - 1) as u16) == 0 ==> t & ((r - 1) as u16) == t % r) by (bit_vector);
    assert(t & m <= m) by (bit_vector);
}

/// The smallest power of two that is at least `n` (1 for 0).
pub fn next_pow2(n: u16) -> (r: u16)
    requires
        n <= MAX_RING_ENTRIES,
    ensures
        is_pow2_ceil(n, r),
{
    let mut p: u16 = 1;
    assert(is_pow2(1u16)) by (bit_vector);
    while p < n
        invariant
            n <= 32768,
            is_pow2(p),
            p == 1 || p / 2 < n,
        decreases 32768 - p,
    {
        proof {
            lemma_pow2_le_max(p);
            lemma_pow2_double(p);
        }
        p = p * 2;
    }
    p
}

/// Configuration of a buffer ring before it is built.
#[derive(Clone, Copy, PartialEq, Eq, Structural, Debug)]
pub struct Builder {
    pub bgid: u16,
    pub ring_entries: u16,
    pub buf_cnt: u16,
    pub buf_len: usize,
}

/// Ring entries and buffer count after the "max of the two" step of `build`:
/// when no count is given, or the ring is smaller than the count, both take
/// the larger value.
pub open spec fn settled_counts(b: Builder) -> (u16, u16) {
    if b.buf_cnt == 0 || b.ring_entries < b.buf_cnt {
        let m = if b.ring_entries < b.buf_cnt {
            b.buf_cnt
        } else {
            b.ring_entries
        };
        (m, m)
    } else {
        (b.ring_entries, b.buf_cnt)
    }
}

/// Whether `build` succeeds on this configuration.
pub open spec fn builds(b: Builder) -> bool {
    let (re, cnt) = settled_counts(b);
    re <= MAX_RING_ENTRIES && cnt != 0 && b.buf_len != 0
}

impl Builder {
    /// A configuration for buffer group `bgid` with the defaults: 128 ring
    /// entries, a buffer count taken from the ring entries, 4096-byte buffers.
    pub fn new(bgid: u16) -> (r: Builder)
        ensures
            r == (Builder { bgid, ring_entries: 128, buf_cnt: 0, buf_len: 4096 }),
    {
        Builder { bgid, ring_entries: 128, buf_cnt: 0, buf_len: 4096 }
    }

    /// Sets the number of ring entries.
    pub fn ring_entries(self, ring_entries: u16) -> (r: Builder)
        ensures
            r == (Builder { ring_entries, ..self }),
    {
        Builder { ring_entries, ..self }
    }

    /// Sets the number of buffers; zero takes the count from the ring entries.
    pub fn buf_cnt(self, buf_cnt: u16) -> (r: Builder)
        ensures
            r == (Builder { buf_cnt, ..self }),
    {
        Builder { buf_cnt, ..self }
    }

    /// Sets the length of each buffer.
    pub fn buf_len(self, buf_len: usize) -> (r: Builder)
        ensures
            r == (Builder { buf_len, ..self }),
    {
        Builder { buf_len, ..self }
    }

    /// Builds the ring: the ring entries become the smallest power of two at
    /// least the settled count, and every buffer is published to the ring.
    pub fn build(&self) -> (r: Result<BufRing, Error>)
        ensures
            builds(*self) <==> r is Ok,
            !builds(*self) ==> r == Err::<BufRing, Error>(Error::InvalidInput),
            r matches Ok(ring) ==> {
                &&& ring.wf()
                &&& ring.spec_bgid() == self.bgid
                &&& is_pow2_ceil(settled_counts(*self).0, ring.spec_ring_entries())
                &&& ring.spec_buf_cnt() == settled_counts(*self).1
                &&& ring.spec_buf_len() == self.buf_len
                &&& ring.fresh()
                &&& forall|i: int| 0 <= i < ring.spec_buf_cnt() ==> #[trigger] ring.slots()[i] == (RingEntry {
                    bid: i as u16,
                    len: self.buf_len,
                })
            },
    {
        let mut re = self.ring_entries;
        let mut cnt = self.buf_cnt;
        if cnt == 0 || re < cnt {
            let m = if re < cnt {
                cnt
            } else {
                re
            };
            re = m;
            cnt = m;
        }
        if re > MAX_RING_ENTRIES {
            return Err(Error::InvalidInput);
        }
        let re = next_pow2(re);
        BufRing::new(self.bgid, re, cnt, self.buf_len)
    }
}

/// One slot of the producer ring, as the kernel reads it.
#[derive(Clone, Copy, PartialEq, Eq, Structural, Debug)]
pub struct RingEntry {
    pub bid: u16,
    pub len: usize,
}

/// A buffer the kernel selected and filled, handed to user code. Releasing
/// it to its ring publishes its buffer again. The null holder owns no buffer.
#[derive(Debug)]
pub struct BufferHolder {
    bid: u16,
    len: usize,
    owned: bool,
}

impl BufferHolder {
    pub closed spec fn spec_bid(&self) -> u16 {
        self.bid
    }

    pub closed spec fn spec_len(&self) -> usize {
        self.len
    }

    pub closed spec fn spec_owned(&self) -> bool {
        self.owned
    }

    /// The holder that owns no buffer.
    pub fn null() -> (r: BufferHolder)
        ensures
            !r.spec_owned(),
            r.spec_len() == 0,
    {
        BufferHolder { bid: 0, len: 0, owned: false }
    }

    /// The id of the held buffer.
    pub fn bid(&self) -> (r: u16)
        ensures
            r == self.spec_bid(),
    {
        self.bid
    }

    /// The number of bytes the kernel wrote into the buffer.
    pub fn len(&self) -> (r: usize)
        ensures
            r == self.spec_len(),
    {
        self.len
    }

    /// Whether no bytes were written (end of stream for a read).
    pub fn is_empty(&self) -> (r: bool)
        ensures
            r == (self.spec_len() == 0),
    {
        self.len == 0
    }

    /// Whether this holder owns a buffer.
    pub fn is_owned(&self) -> (r: bool)
        ensures
            r == self.spec_owned(),
    {
        self.owned
    }
}

impl Default for BufferHolder {
    fn default() -> (r: BufferHolder)
        ensures
            !r.spec_owned(),
            r.spec_len() == 0,
    {
        BufferHolder::null()
    }
}

/// A pool of fixed-size buffers published to the kernel through a producer
/// ring. `window` holds, in publication order, the ids that are published
/// and not yet taken by the kernel; the others are loaned to user code.
pub struct BufRing {
    bgid: u16,
    mask: u16,
    buf_cnt: u16,
    buf_len: usize,
    bufs: Vec<Vec<u8>>,
    slots: Vec<RingEntry>,
    local_tail: u16,
    shared_tail: u16,
    loaned: Vec<bool>,
    window: Ghost<Seq<u16>>,
}

impl BufRing {
    pub closed spec fn wf(&self) -> bool {
        &&& is_pow2((self.mask + 1) as u16)
        &&& self.mask < MAX_RING_ENTRIES
        &&& self.slots@.len() == self.mask + 1
        &&& 0 < self.buf_cnt <= self.mask + 1
        &&& self.buf_len > 0
        &&& self.bufs@.len() == self.buf_cnt
        &&& forall|i: int| 0 <= i < self.bufs@.len() ==> #[trigger] self.bufs@[i]@.len()
            == self.buf_len
        &&& self.loaned@.len() == self.buf_cnt
        &&& self.window@.no_duplicates()
        &&& forall|i: int|
            0 <= i < self.window@.len() ==> #[trigger] self.window@[i] < self.buf_cnt
                && !self.loaned@[self.window@[i] as int]
        &&& forall|b: u16| b < self.buf_cnt && !#[trigger] self.loaned@[b as int] ==> self.window@.contains(b)
    }

    pub closed spec fn spec_bgid(&self) -> u16 {
        self.bgid
    }

    pub closed spec fn spec_ring_entries(&self) -> u16 {
        (self.mask + 1) as u16
    }

    pub closed spec fn spec_buf_cnt(&self) -> u16 {
        self.buf_cnt
    }

    pub closed spec fn spec_buf_len(&self) -> usize {
        self.buf_len
    }

    /// The ids published to the kernel and not yet taken, oldest first.
    pub closed spec fn window(&self) -> Seq<u16> {
        self.window@
    }

    /// Whether buffer `b` is loaned to user code.
    pub closed spec fn is_loaned(&self, b: u16) -> bool {
        (b as int) < self.loaned@.len() && self.loaned@[b as int]
    }

    /// The tail as the library counts it.
    pub closed spec fn local_tail(&self) -> u16 {
        self.local_tail
    }

    /// The tail as last published to the kernel.
    pub closed spec fn shared_tail(&self) -> u16 {
        self.shared_tail
    }

    /// The ring slots.
    pub closed spec fn slots(&self) -> Seq<RingEntry> {
        self.slots@
    }

    /// The slots after the entry for `bid` is written at the tail.
    pub open spec fn pushed(&self, bid: u16) -> Seq<RingEntry> {
        self.slots().update(
            (self.local_tail() % self.spec_ring_entries()) as int,
            RingEntry { bid, len: self.spec_buf_len() },
        )
    }

    /// Whether buffer `b` is published exactly once and not loaned.
    pub open spec fn published_once(&self, b: u16) -> bool {
        &&& !self.is_loaned(b)
        &&& exists|i: int|
            0 <= i < self.window().len() && self.window()[i] == b && forall|j: int|
                0 <= j < self.window().len() && #[trigger] self.window()[j] == b ==> j == i
    }

    /// A ring just built: every buffer published once, in id order, and the
    /// tail published up to the buffer count.
    pub open spec fn fresh(&self) -> bool {
        &&& self.window() == Seq::new(self.spec_buf_cnt() as nat, |i: int| i as u16)
        &&& forall|b: u16| b < self.spec_buf_cnt() ==> !#[trigger] self.is_loaned(b)
        &&& self.local_tail() == self.spec_buf_cnt()
        &&& self.shared_tail() == self.local_tail()
    }

    /// Allocates `buf_cnt` buffers of `buf_len` bytes and publishes them all.
    /// Fails with `InvalidInput` on a zero count or length, more buffers than
    /// ring entries, or ring entries that are not a power of two.
    pub fn new(bgid: u16, ring_entries: u16, buf_cnt: u16, buf_len: usize) -> (r: Result<
        BufRing,
        Error,
    >)
        ensures
            (buf_cnt != 0 && buf_cnt <= ring_entries && buf_len != 0 && is_pow2(ring_entries))
                <==> r is Ok,
            r is Err ==> r == Err::<BufRing, Error>(Error::InvalidInput),
            r matches Ok(ring) ==> {
                &&& ring.wf()
                &&& ring.spec_bgid() == bgid
                &&& ring.spec_ring_entries() == ring_entries
                &&& ring.spec_buf_cnt() == buf_cnt
                &&& ring.spec_buf_len() == buf_len
                &&& ring.fresh()
                &&& forall|i: int| 0 <= i < buf_cnt ==> #[trigger] ring.slots()[i] == (RingEntry {
                    bid: i as u16,
                    len: buf_len,
                })
            },
    {
        if buf_cnt == 0 || buf_cnt > ring_entries || buf_len == 0 {
            return Err(Error::InvalidInput);
        }
        if ring_entries & (ring_entries - 1) != 0 {
            return Err(Error::InvalidInput);
        }
        assert(ring_entries <= 32768) by {
            assert(ring_entries != 0 && ring_entries & ((ring_entries - 1) as u16) == 0
                ==> ring_entries <= 32768) by (bit_vector);
        }
        let mut bufs: Vec<Vec<u8>> = Vec::new();
        let mut loaned: Vec<bool> = Vec::new();
        let mut i: u16 = 0;
        while i < buf_cnt
            invariant
                i <= buf_cnt,
                bufs@.len() == i,
                loaned@.len() == i,
                forall|k: int| 0 <= k < i ==> #[trigger] bufs@[k]@.len() == buf_len,
                forall|k: int| 0 <= k < i ==> !#[trigger] loaned@[k],
            decreases buf_cnt - i,
        {
            bufs.push(vec![0u8; buf_len]);
            loaned.push(false);
            i = i + 1;
        }
        let mut slots: Vec<RingEntry> = Vec::new();
        let mut j: u16 = 0;
        while j < ring_entries
            invariant
                j <= ring_entries,
                slots@.len() == j,
            decreases ring_entries - j,
        {
            slots.push(RingEntry { bid: 0, len: 0 });
            j = j + 1;
        }
        let mut ring = BufRing {
            bgid,
            mask: ring_entries - 1,
            buf_cnt,
            buf_len,
            bufs,
            slots,
            local_tail: 0,
            shared_tail: 0,
            loaned,
            window: Ghost(Seq::empty()),
        };
        assert(ring.window@ =~= Seq::new(0 as nat, |k: int| k as u16));
        let mut b: u16 = 0;
        while b < buf_cnt
            invariant
                b <= buf_cnt,
                buf_cnt <= ring_entries,
                ring_entries <= 32768,
                ring_entries >= 1,
                ring.bgid == bgid,
                ring.mask == ring_entries - 1,
                ring.buf_cnt == buf_cnt,
                ring.buf_len == buf_len,
                ring.slots@.len() == ring_entries,
                ring.local_tail == b,
                ring.shared_tail == 0,
                ring.loaned@.len() == buf_cnt,
                ring.bufs@.len() == buf_cnt,
                forall|k: int| 0 <= k < buf_cnt ==> #[trigger] ring.bufs@[k]@.len() == buf_len,
                forall|k: int| 0 <= k < buf_cnt ==> !#[trigger] ring.loaned@[k],
                ring.window@ == Seq::new(b as nat, |k: int| k as u16),
                is_pow2(ring_entries),
                forall|k: int| 0 <= k < b ==> #[trigger] ring.slots@[k] == (RingEntry { bid: k as u16, len: buf_len }),
            decreases buf_cnt - b,
        {
            proof {
                assert((ring_entries - 1 + 1) as u16 == ring_entries);
                assert(b < ring_entries);
                assert(b % ring_entries == b) by (nonlinear_arith)
                    requires b < ring_entries;
            }
            ring.push(b);
            ring.window = Ghost(ring.window@.push(b));
            assert(ring.window@ =~= Seq::new((b + 1) as nat, |k: int| k as u16));
            b = b + 1;
        }
        ring.sync();
        proof {
            assert((ring_entries - 1 + 1) as u16 == ring_entries);
            let w = ring.window@;
            assert forall|x: int, y: int|
                0 <= x < w.len() && 0 <= y < w.len() && x != y implies w[x] != w[y] by {}
            assert forall|c: u16| c < buf_cnt && !#[trigger] ring.loaned@[c as int] implies w.contains(c) by {
                assert(w[c as int] == c);
            }
            assert forall|i: int| 0 <= i < w.len() implies #[trigger] w[i] < ring.buf_cnt
                && !ring.loaned@[w[i] as int] by {}
        }
        Ok(ring)
    }

    /// Writes the entry for buffer `bid` at the tail slot and advances the
    /// local tail; the kernel does not see it until `sync`.
    fn push(&mut self, bid: u16)
        requires
            bid < old(self).buf_cnt,
            old(self).slots@.len() == old(self).mask + 1,
            old(self).mask < MAX_RING_ENTRIES,
            is_pow2((old(self).mask + 1) as u16),
        ensures
            final(self).local_tail == old(self).local_tail.wrapping_add(1),
            final(self).slots@ == old(self).slots@.update(
                (old(self).local_tail % ((old(self).mask + 1) as u16)) as int,
                RingEntry { bid, len: old(self).buf_len },
            ),
            final(self).slots@.len() == old(self).slots@.len(),
            final(self).slots@ == old(self).slots@.update(
                (old(self).local_tail & old(self).mask) as int,
                RingEntry { bid, len: old(self).buf_len },
            ),
            final(self).bgid == old(self).bgid,
            final(self).mask == old(self).mask,
            final(self).buf_cnt == old(self).buf_cnt,
            final(self).buf_len == old(self).buf_len,
            final(self).bufs == old(self).bufs,
            final(self).shared_tail == old(self).shared_tail,
            final(self).loaned == old(self).loaned,
            final(self).window == old(self).window,
    {
        let old_tail = self.local_tail;
        self.local_tail = old_tail.wrapping_add(1);
        let mask = self.mask;
        let idx = old_tail & mask;
        proof {
            lemma_mask_is_mod(old_tail, mask);
        }
        let entry = RingEntry { bid, len: self.buf_len };
        self.slots.set(idx as usize, entry);
    }

    /// Publishes the local tail to the kernel.
    fn sync(&mut self)
        ensures
            final(self).shared_tail == old(self).local_tail,
            final(self).local_tail == old(self).local_tail,
            final(self).bgid == old(self).bgid,
            final(self).mask == old(self).mask,
            final(self).buf_cnt == old(self).buf_cnt,
            final(self).buf_len == old(self).buf_len,
            final(self).bufs == old(self).bufs,
            final(self).slots == old(self).slots,
            final(self).loaned == old(self).loaned,
            final(self).window == old(self).window,
    {
        self.shared_tail = self.local_tail;
    }

    /// The buffer group id.
    pub fn bgid(&self) -> (r: u16)
        ensures
            r == self.spec_bgid(),
    {
        self.bgid
    }

    /// The number of ring entries.
    pub fn ring_entries(&self) -> (r: u16)
        requires
            self.wf(),
        ensures
            r == self.spec_ring_entries(),
    {
        self.mask + 1
    }

    /// The number of buffers.
    pub fn buf_cnt(&self) -> (r: u16)
        ensures
            r == self.spec_buf_cnt(),
    {
        self.buf_cnt
    }

    /// The capacity of each buffer.
    pub fn buf_capacity(&self) -> (r: usize)
        ensures
            r == self.spec_buf_len(),
    {
        self.buf_len
    }

    /// The tail value last published to the kernel.
    pub fn published_tail(&self) -> (r: u16)
        ensures
            r == self.shared_tail(),
    {
        self.shared_tail
    }

    /// The ring slot at `idx`.
    pub fn slot(&self, idx: u16) -> (r: RingEntry)
        requires
            self.wf(),
            idx < self.spec_ring_entries(),
        ensures
            r == self.slots()[idx as int],
    {
        self.slots[idx as usize]
    }

    /// The storage of buffer `bid`.
    pub fn buffer(&self, bid: u16) -> (r: &Vec<u8>)
        requires
            self.wf(),
            bid < self.spec_buf_cnt(),
        ensures
            r@.len() == self.spec_buf_len(),
    {
        &self.bufs[bid as usize]
    }

    /// The bytes the kernel wrote into the buffer a holder owns.
    pub fn data(&self, h: &BufferHolder) -> (r: &[u8])
        requires
            self.wf(),
        ensures
            h.spec_owned() && h.spec_bid() < self.spec_buf_cnt() && h.spec_len() <= self.spec_buf_len()
                ==> r@.len() == h.spec_len(),
            !(h.spec_owned() && h.spec_bid() < self.spec_buf_cnt() && h.spec_len() <= self.spec_buf_len())
                ==> r@.len() == 0,
    {
        if h.owned && h.bid < self.buf_cnt && h.len <= self.buf_len {
            let v = &self.bufs[h.bid as usize];
            vstd::slice::slice_subrange(v.as_slice(), 0, h.len)
        } else {
            vstd::slice::slice_subrange(self.bufs[0].as_slice(), 0, 0)
        }
    }

    /// Hands buffer `bid`, which the kernel selected and filled with `len`
    /// bytes, to user code. Fails with `BufferNotFound` when `bid` is not a
    /// published buffer of this ring, and with `InvalidInput` when `len`
    /// exceeds the buffer length (the buffer is then published again).
    pub fn get_buf(&mut self, len: usize, bid: u16) -> (r: Result<BufferHolder, Error>)
        requires
            old(self).wf(),
        ensures
            sizes_kept(*old(self), *final(self)),
            receives_as(*old(self), *final(self), bid, len as int, r),
    {
        if bid >= self.buf_cnt || self.loaned[bid as usize] {
            return Err(Error::BufferNotFound);
        }
        if len > self.buf_len {
            self.recycle(bid);
            return Err(Error::InvalidInput);
        }
        proof {
            assert(!self.loaned@[bid as int]);
        }
        let ghost w = self.window@;
        let ghost idx = w.index_of(bid);
        proof {
            assert(w.contains(bid));
        }
        self.loaned.set(bid as usize, true);
        self.window = Ghost(w.remove(idx));
        proof {
            let nw = self.window@;
            assert forall|i: int| 0 <= i < nw.len() implies #[trigger] nw[i] < self.buf_cnt
                && !self.loaned@[nw[i] as int] by {
                if i < idx {
                    assert(nw[i] == w[i]);
                } else {
                    assert(nw[i] == w[i + 1]);
                }
                assert(nw[i] != bid);
            }
            assert forall|c: u16| c < self.buf_cnt && !#[trigger] self.loaned@[c as int] implies nw.contains(c) by {
                assert(c != bid);
                assert(w.contains(c));
                let k = choose|k: int| 0 <= k < w.len() && w[k] == c;
                assert(k != idx);
                if k < idx {
                    assert(nw[k] == c);
                } else {
                    assert(nw[k - 1] == c);
                }
            }
            assert(!nw.contains(bid)) by {
                if nw.contains(bid) {
                    let k = choose|k: int| 0 <= k < nw.len() && nw[k] == bid;
                    if k < idx {
                        assert(w[k] == bid);
                    } else {
                        assert(w[k + 1] == bid);
                    }
                }
            }
        }
        Ok(BufferHolder { bid, len, owned: true })
    }

    /// Publishes again buffer `bid`, which the kernel selected but whose
    /// completion will not be handed to user code (an error, or a dropped
    /// operation). Does nothing and returns false when `bid` is not a
    /// published buffer of this ring.
    pub fn recycle(&mut self, bid: u16) -> (r: bool)
        requires
            old(self).wf(),
        ensures
            sizes_kept(*old(self), *final(self)),
            r == (bid < old(self).spec_buf_cnt() && !old(self).is_loaned(bid)),
            !r ==> *final(self) == *old(self),
            r ==> recycled(*old(self), *final(self), bid),
    {
        if bid >= self.buf_cnt || self.loaned[bid as usize] {
            return false;
        }
        let ghost w = self.window@;
        let ghost idx = w.index_of(bid);
        proof {
            assert(w.contains(bid));
        }
        self.push(bid);
        self.sync();
        self.window = Ghost(w.remove(idx).push(bid));
        proof {
            let nw = self.window@;
            let rw = w.remove(idx);
            assert(nw.len() == w.len());
            assert forall|i: int| 0 <= i < rw.len() implies #[trigger] rw[i] != bid && rw[i]
                < self.buf_cnt && !self.loaned@[rw[i] as int] by {
                if i < idx {
                    assert(rw[i] == w[i]);
                } else {
                    assert(rw[i] == w[i + 1]);
                }
            }
            assert(nw[nw.len() - 1] == bid);
            assert forall|i: int| 0 <= i < nw.len() implies #[trigger] nw[i] < self.buf_cnt
                && !self.loaned@[nw[i] as int] by {
                if i < nw.len() - 1 {
                    assert(nw[i] == rw[i]);
                }
            }
            assert forall|x: int, y: int|
                0 <= x < nw.len() && 0 <= y < nw.len() && x != y implies nw[x] != nw[y] by {
                if x < nw.len() - 1 && y < nw.len() - 1 {
                    let xx = if x < idx { x } else { x + 1 };
                    let yy = if y < idx { y } else { y + 1 };
                    assert(nw[x] == w[xx]);
                    assert(nw[y] == w[yy]);
                } else if x < nw.len() - 1 {
                    assert(nw[x] == rw[x]);
                } else {
                    assert(nw[y] == rw[y]);
                }
            }
            assert forall|c: u16| c < self.buf_cnt && !#[trigger] self.loaned@[c as int] implies nw.contains(c) by {
                if c == bid {
                    assert(nw[nw.len() - 1] == bid);
                } else {
                    let k = choose|k: int| 0 <= k < w.len() && w[k] == c;
                    assert(k != idx);
                    if k < idx {
                        assert(nw[k] == c);
                    } else {
                        assert(nw[k - 1] == c);
                    }
                }
            }
            let last = nw.len() - 1;
            assert forall|j: int| 0 <= j < nw.len() && #[trigger] nw[j] == bid implies j == last by {
                if j < last {
                    assert(nw[j] == rw[j]);
                }
            }
            assert(self.window() == nw);
            assert(0 <= last < nw.len() && nw[last] == bid);
        }
        true
    }

    /// Returns a holder's buffer to the ring and publishes it. Returns false,
    /// changing nothing, for the null holder or one whose buffer is not loaned.
    pub fn release(&mut self, h: BufferHolder) -> (r: bool)
        requires
            old(self).wf(),
        ensures
            sizes_kept(*old(self), *final(self)),
            r == (h.spec_owned() && h.spec_bid() < old(self).spec_buf_cnt() && old(self).is_loaned(
                h.spec_bid(),
            )),
            !r ==> *final(self) == *old(self),
            r ==> released(*old(self), *final(self), h.spec_bid()),
    {
        if !h.owned || h.bid >= self.buf_cnt || !self.loaned[h.bid as usize] {
            return false;
        }
        let bid = h.bid;
        let ghost w = self.window@;
        proof {
            assert(!w.contains(bid)) by {
                if w.contains(bid) {
                    let k = choose|k: int| 0 <= k < w.len() && w[k] == bid;
                }
            }
        }
        self.push(bid);
        self.sync();
        self.loaned.set(bid as usize, false);
        self.window = Ghost(w.push(bid));
        proof {
            let nw = self.window@;
            let last = nw.len() - 1;
            assert forall|i: int| 0 <= i < nw.len() implies #[trigger] nw[i] < self.buf_cnt
                && !self.loaned@[nw[i] as int] by {
                if i < last {
                    assert(nw[i] == w[i]);
                    assert(w[i] != bid);
                }
            }
            assert forall|x: int, y: int|
                0 <= x < nw.len() && 0 <= y < nw.len() && x != y implies nw[x] != nw[y] by {
                if x < last && y < last {
                    assert(nw[x] == w[x]);
                    assert(nw[y] == w[y]);
                } else if x < last {
                    assert(nw[x] == w[x]);
                } else {
                    assert(nw[y] == w[y]);
                }
            }
            assert forall|c: u16| c < self.buf_cnt && !#[trigger] self.loaned@[c as int] implies nw.contains(c) by {
                if c == bid {
                    assert(nw[last] == bid);
                } else {
                    assert(w.contains(c));
                    let k = choose|k: int| 0 <= k < w.len() && w[k] == c;
                    assert(nw[k] == c);
                }
            }
            assert forall|j: int| 0 <= j < nw.len() && #[trigger] nw[j] == bid implies j == last by {
                if j < last {
                    assert(nw[j] == w[j]);
                }
            }
            assert(self.window() == nw);
            assert(0 <= last < nw.len() && nw[last] == bid);
        }
        true
    }

    /// Resolves a completion that asked for a provided buffer into a holder.
    /// An error result is returned as is, after publishing again any buffer
    /// the completion selected; a success without a selected buffer fails
    /// with `BufferNotFound`; otherwise as `get_buf` with the result as length.
    pub fn get(&mut self, cqe: CqeResult) -> (r: Result<BufferHolder, Error>)
        requires
            old(self).wf(),
        ensures
            sizes_kept(*old(self), *final(self)),
            resolves_as(*old(self), *final(self), cqe, r),
    {
        let bid = io_uring::cqueue::buffer_select(cqe.flags);
        match cqe.result {
            Err(e) => {
                if let Some(b) = bid {
                    self.recycle(b);
                }
                Err(e)
            },
            Ok(n) => {
                match bid {
                    None => Err(Error::BufferNotFound),
                    Some(b) => self.get_buf(n as usize, b),
                }
            },
        }
    }
}

/// Both rings are well formed and of the same group and sizes.
pub open spec fn sizes_kept(before: BufRing, after: BufRing) -> bool {
    &&& after.wf()
    &&& after.spec_bgid() == before.spec_bgid()
    &&& after.spec_ring_entries() == before.spec_ring_entries()
    &&& after.spec_buf_cnt() == before.spec_buf_cnt()
    &&& after.spec_buf_len() == before.spec_buf_len()
}

/// The tails and slots are untouched.
pub open spec fn ring_kept(before: BufRing, after: BufRing) -> bool {
    &&& after.local_tail() == before.local_tail()
    &&& after.shared_tail() == before.shared_tail()
    &&& after.slots() == before.slots()
}

/// `b` was written at the tail slot, the tail advanced by one and was
/// published, and `b` is the newest id in the window.
pub open spec fn published_at_tail(before: BufRing, after: BufRing, b: u16) -> bool {
    &&& after.slots() == before.pushed(b)
    &&& after.local_tail() == before.local_tail().wrapping_add(1)
    &&& after.shared_tail() == after.local_tail()
    &&& after.published_once(b)
    &&& after.window().last() == b
}

/// A published buffer the kernel took and that goes back unused: it is
/// published again, at the tail; no loan changes.
pub open spec fn recycled(before: BufRing, after: BufRing, b: u16) -> bool {
    &&& published_at_tail(before, after, b)
    &&& after.window() == before.window().remove(before.window().index_of(b)).push(b)
    &&& forall|c: u16| after.is_loaned(c) == before.is_loaned(c)
}

/// A loaned buffer comes back: it is published at the tail and no longer
/// loaned; other loans stay.
pub open spec fn released(before: BufRing, after: BufRing, b: u16) -> bool {
    &&& published_at_tail(before, after, b)
    &&& after.window() == before.window().push(b)
    &&& !after.is_loaned(b)
    &&& forall|c: u16| c != b ==> after.is_loaned(c) == before.is_loaned(c)
}

/// What handing buffer `b`, filled with `n` bytes, to user code yields and
/// does to the ring.
pub open spec fn receives_as(
    before: BufRing,
    after: BufRing,
    b: u16,
    n: int,
    r: Result<BufferHolder, Error>,
) -> bool {
    let avail = b < before.spec_buf_cnt() && !before.is_loaned(b);
    &&& (avail && n <= before.spec_buf_len()) <==> r is Ok
    &&& !avail ==> r == Err::<BufferHolder, Error>(Error::BufferNotFound) && after == before
    &&& avail && n > before.spec_buf_len() ==> r == Err::<BufferHolder, Error>(
        Error::InvalidInput,
    ) && recycled(before, after, b)
    &&& r matches Ok(h) ==> {
        &&& h.spec_owned() && h.spec_bid() == b && h.spec_len() == n
        &&& after.is_loaned(b)
        &&& !after.window().contains(b)
        &&& after.window() == before.window().remove(before.window().index_of(b))
        &&& forall|c: u16| c != b ==> after.is_loaned(c) == before.is_loaned(c)
        &&& ring_kept(before, after)
    }
}

/// What resolving a buffer-select completion yields and does to the ring:
/// an error is returned as is, after publishing again a buffer it
/// selected; a success without a buffer is `BufferNotFound`; a success
/// with one hands it out as `receives_as` says.
pub open spec fn resolves_as(
    before: BufRing,
    after: BufRing,
    cqe: CqeResult,
    r: Result<BufferHolder, Error>,
) -> bool {
    let bid = selected_bid(cqe.flags);
    &&& bid is None ==> after == before
    &&& cqe.result is Err ==> r == Err::<BufferHolder, Error>(cqe.result->Err_0)
    &&& cqe.result is Err && bid is Some ==> {
        let b = bid->Some_0;
        if b < before.spec_buf_cnt() && !before.is_loaned(b) {
            recycled(before, after, b)
        } else {
            after == before
        }
    }
    &&& cqe.result is Ok && bid is None ==> r == Err::<BufferHolder, Error>(Error::BufferNotFound)
    &&& cqe.result is Ok && bid is Some ==> receives_as(
        before,
        after,
        bid->Some_0,
        cqe.result->Ok_0 as int,
        r,
    )
}

/// Every buffer of a ring is, at every moment, either loaned to user code
/// or published in the ring exactly once, never both. Releasing a holder
/// moves its buffer from the first to the second; `get_buf` succeeds only
/// on a buffer that is not loaned, so no read receives a buffer again
/// before its entry is back in the ring.
pub proof fn lemma_loaned_or_published_once(r: BufRing, b: u16)
    requires
        r.wf(),
        b < r.spec_buf_cnt(),
    ensures
        r.is_loaned(b) != r.published_once(b),
{
    if !r.is_loaned(b) {
        let w = r.window();
        assert(w.contains(b));
        let i = choose|i: int| 0 <= i < w.len() && w[i] == b;
        assert forall|j: int| 0 <= j < w.len() && #[trigger] w[j] == b implies j == i by {}
    }
}

} // verus!

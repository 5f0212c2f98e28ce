use vstd::prelude::*;
use std::task::Waker;
use slab::Slab;
use crate::buffer::{recycled, released, resolves_as, sizes_kept, BufRing, BufferHolder};
use crate::cqe::{lift_result, selected_bid, Cqe, CqeResult, RESERVED_COOKIE};
use crate::error::Error;
use crate::payload::{completes_as, fed, lemma_fed_start, lemma_fed_step, Output, Payload};
use crate::stream::{returned, FillStep, ReadCursor};

verus! {

/// std's task waker, carried through opaquely.
#[verifier::external_type_specification]
#[verifier::external_body]
pub struct ExWaker(Waker);

/// The slab crate's keyed arena, whose contents `slab_states` names.
#[verifier::external_type_specification]
#[verifier::external_body]
#[verifier::reject_recursive_types(T)]
pub struct ExSlab<T>(Slab<T>);

/// Relies on std::task::Waker::will_wake: whether two wakers wake the same
/// task. The answer rests on addresses, so nothing is stated of it.
pub assume_specification[ Waker::will_wake ](w: &Waker, other: &Waker) -> bool;

/// Relies on std::task::Waker::wake: schedules the task; no state of this
/// library is touched.
pub assume_specification[ Waker::wake ](w: Waker);

/// Relies on std::task::Waker::wake_by_ref: schedules the task; no state of
/// this library is touched.
pub assume_specification[ Waker::wake_by_ref ](w: &Waker);

/// The lifecycle state of one in-flight operation.
pub enum OpState {
    /// Submitted; no task awaits it yet.
    Submitted,
    /// A task awaits it and is woken on completion.
    Waiting(Waker),
    /// The terminal completion, not yet consumed by the handle.
    Completed(CqeResult),
    /// Completions of a multi-shot operation, not yet drained by the handle.
    CompletionList(Vec<CqeResult>),
    /// The handle was dropped in flight; the payload is kept until the
    /// terminal completion.
    Ignored(Payload),
}

/// An operation state as contracts speak of it.
pub enum StateView {
    Submitted,
    Waiting(Waker),
    Completed(CqeResult),
    CompletionList(Seq<CqeResult>),
    Ignored(Payload),
}

pub open spec fn view_of(s: OpState) -> StateView {
    match s {
        OpState::Submitted => StateView::Submitted,
        OpState::Waiting(w) => StateView::Waiting(w),
        OpState::Completed(c) => StateView::Completed(c),
        OpState::CompletionList(l) => StateView::CompletionList(l@),
        OpState::Ignored(p) => StateView::Ignored(p),
    }
}

/// The states a slab of operations holds, by key.
pub uninterp spec fn slab_states(s: Slab<OpState>) -> Map<usize, OpState>;

/// Relies on slab::Slab::with_capacity: a new slab holds no entries.
#[verifier::external_body]
fn slab_with_capacity(capacity: usize) -> (r: Slab<OpState>)
    ensures
        slab_states(r).dom() == Set::<usize>::empty(),
{
    Slab::with_capacity(capacity)
}

/// Relies on slab::Slab::insert: the value is stored under a key that was
/// vacant, and that key is returned.
#[verifier::external_body]
fn slab_insert(s: &mut Slab<OpState>, v: OpState) -> (k: usize)
    ensures
        !slab_states(*old(s)).contains_key(k),
        slab_states(*final(s)) == slab_states(*old(s)).insert(k, v),
{
    s.insert(v)
}

/// Relies on slab::Slab::get_mut: it yields the occupied entry under `key`,
/// which is exchanged in place for `v`, and the old value returned; a
/// vacant key changes nothing.
#[verifier::external_body]
fn slab_swap(s: &mut Slab<OpState>, key: usize, v: OpState) -> (r: Option<OpState>)
    ensures
        slab_states(*old(s)).contains_key(key) ==> r == Some(slab_states(*old(s))[key])
            && slab_states(*final(s)) == slab_states(*old(s)).insert(key, v),
        !slab_states(*old(s)).contains_key(key) ==> r is None && slab_states(*final(s))
            == slab_states(*old(s)),
{
    s.get_mut(key).map(|slot| std::mem::replace(slot, v))
}

/// Relies on slab::Slab::try_remove: an occupied entry is taken out and
/// returned; a vacant key changes nothing.
#[verifier::external_body]
fn slab_try_remove(s: &mut Slab<OpState>, key: usize) -> (r: Option<OpState>)
    ensures
        slab_states(*old(s)).contains_key(key) ==> r == Some(slab_states(*old(s))[key])
            && slab_states(*final(s)) == slab_states(*old(s)).remove(key),
        !slab_states(*old(s)).contains_key(key) ==> r is None && slab_states(*final(s))
            == slab_states(*old(s)),
{
    s.try_remove(key)
}

/// Relies on slab::Slab::len: the number of occupied entries.
#[verifier::external_body]
fn slab_len(s: &Slab<OpState>) -> (r: usize)
    ensures
        r == slab_states(*s).len(),
{
    s.len()
}

/// The lifted form of a raw completion.
pub open spec fn lift(c: Cqe) -> CqeResult {
    CqeResult { result: lift_result(c.result), flags: c.flags }
}

/// The state a slot moves to when a completion arrives; `None` frees it.
/// A terminal completion of an ignored operation frees its slot; a
/// completion for an already completed slot is dropped.
pub open spec fn next_state(s: StateView, c: CqeResult) -> Option<StateView> {
    match s {
        StateView::Submitted | StateView::Waiting(_) => Some(
            if c.is_more() {
                StateView::CompletionList(seq![c])
            } else {
                StateView::Completed(c)
            },
        ),
        StateView::Ignored(p) => if c.is_more() {
            Some(StateView::Ignored(p))
        } else {
            None
        },
        StateView::CompletionList(l) => Some(StateView::CompletionList(l.push(c))),
        StateView::Completed(d) => Some(StateView::Completed(d)),
    }
}

/// The table after one completion is routed by its cookie. Reserved
/// cookies and cookies of no tracked operation leave it as it is.
pub open spec fn route(m: Map<usize, StateView>, c: Cqe) -> Map<usize, StateView> {
    let k = c.user_data as usize;
    if c.user_data == RESERVED_COOKIE || !m.contains_key(k) {
        m
    } else {
        match next_state(m[k], lift(c)) {
            Some(s) => m.insert(k, s),
            None => m.remove(k),
        }
    }
}

/// The table after a batch of completions is routed in order.
pub open spec fn route_all(m: Map<usize, StateView>, cs: Seq<Cqe>) -> Map<usize, StateView>
    decreases cs.len(),
{
    if cs.len() == 0 {
        m
    } else {
        route(route_all(m, cs.drop_last()), cs.last())
    }
}

/// The number of leading completions that carry the "more" flag.
pub open spec fn leading_more(l: Seq<CqeResult>) -> nat
    decreases l.len(),
{
    if l.len() == 0 {
        0
    } else if l[0].is_more() {
        1 + leading_more(l.drop_first())
    } else {
        0
    }
}

/// The state a handle's drop leaves behind; `None` frees the slot. An
/// operation the kernel may still write for keeps its payload.
pub open spec fn dropped_state(s: StateView, p: Payload) -> Option<StateView> {
    match s {
        StateView::Submitted | StateView::Waiting(_) => Some(StateView::Ignored(p)),
        StateView::CompletionList(l) => if l.len() > 0 && l.last().is_more() {
            Some(StateView::Ignored(p))
        } else {
            None
        },
        StateView::Completed(_) => None,
        StateView::Ignored(q) => Some(StateView::Ignored(q)),
    }
}

/// After a poll finds no completion, the operation waits on the newest
/// waker, or keeps the waker it already waited on (when that one wakes
/// the same task).
pub open spec fn waits_after_poll(before: StateView, after: StateView, newest: Waker) -> bool {
    match before {
        StateView::Submitted => after == StateView::Waiting(newest),
        StateView::Waiting(w) => after == StateView::Waiting(newest) || after == StateView::Waiting(
            w,
        ),
        _ => false,
    }
}

/// The number of completions that carry the "more" flag.
pub open spec fn more_count(l: Seq<CqeResult>) -> nat
    decreases l.len(),
{
    if l.len() == 0 {
        0
    } else {
        (if l[0].is_more() {
            1nat
        } else {
            0nat
        }) + more_count(l.drop_first())
    }
}

proof fn lemma_leading_more(l: Seq<CqeResult>, i: int)
    requires
        0 <= i <= l.len(),
        forall|j: int| 0 <= j < i ==> (#[trigger] l[j]).is_more(),
        i < l.len() ==> !l[i].is_more(),
    ensures
        leading_more(l) == i,
    decreases l.len(),
{
    if l.len() > 0 && i > 0 {
        let t = l.drop_first();
        assert forall|j: int| 0 <= j < i - 1 implies (#[trigger] t[j]).is_more() by {
            assert(t[j] == l[j + 1]);
        }
        if i - 1 < t.len() {
            assert(t[i - 1] == l[i]);
        }
        lemma_leading_more(t, i - 1);
    }
}

proof fn lemma_leading_more_bound(l: Seq<CqeResult>)
    ensures
        leading_more(l) <= more_count(l),
        leading_more(l) <= l.len(),
        forall|j: int| 0 <= j < leading_more(l) ==> (#[trigger] l[j]).is_more(),
        leading_more(l) < l.len() ==> !l[leading_more(l) as int].is_more(),
    decreases l.len(),
{
    if l.len() > 0 {
        let t = l.drop_first();
        lemma_leading_more_bound(t);
        if l[0].is_more() {
            assert forall|j: int| 0 <= j < leading_more(l) implies (#[trigger] l[j]).is_more() by {
                if j > 0 {
                    assert(l[j] == t[j - 1]);
                }
            }
            if leading_more(l) < l.len() {
                assert(l[leading_more(l) as int] == t[leading_more(t) as int]);
            }
        }
    }
}

proof fn lemma_leading_more_push(l: Seq<CqeResult>, c: CqeResult)
    requires
        !c.is_more(),
    ensures
        leading_more(l.push(c)) < l.push(c).len(),
    decreases l.len(),
{
    let lc = l.push(c);
    if l.len() > 0 {
        assert(lc.drop_first() =~= l.drop_first().push(c));
        lemma_leading_more_push(l.drop_first(), c);
    } else {
        assert(lc[0] == c);
    }
}

/// A terminal completion for a tracked operation never leaves it submitted,
/// waiting or ignored: an ignored operation's slot is freed; a submitted or
/// waiting one holds the completion, which the next poll consumes, freeing
/// the slot; a multi-shot one has a terminal completion queued, which the
/// next poll moves to the completed state.
pub proof fn lemma_terminal_completion(m: Map<usize, StateView>, c: Cqe)
    requires
        c.user_data != RESERVED_COOKIE,
        m.contains_key(c.user_data as usize),
        !lift(c).is_more(),
    ensures
        ({
            let k = c.user_data as usize;
            let m2 = route(m, c);
            &&& m[k] is Ignored ==> !m2.contains_key(k)
            &&& (m[k] is Submitted || m[k] is Waiting) ==> m2[k] == StateView::Completed(lift(c))
            &&& m[k] is CompletionList ==> (m2[k] matches StateView::CompletionList(l)
                && leading_more(l) < l.len() && !l[leading_more(l) as int].is_more())
            &&& m2.contains_key(k) ==> !(m2[k] is Submitted || m2[k] is Waiting || m2[k] is Ignored)
        }),
{
    let k = c.user_data as usize;
    if let StateView::CompletionList(l) = m[k] {
        lemma_leading_more_push(l, lift(c));
        lemma_leading_more_bound(l.push(lift(c)));
    }
}

/// A handle dropped while its operation is submitted or waiting leaves its
/// payload in the table; from then on a "more" completion for its key, a
/// reserved one, or one for any other key leaves the payload in place, and
/// only the terminal completion for its key frees the slot.
pub proof fn lemma_payload_outlives_kernel(
    m: Map<usize, StateView>,
    k: usize,
    s: StateView,
    p: Payload,
    c: Cqe,
)
    requires
        s is Submitted || s is Waiting,
    ensures
        dropped_state(s, p) == Some(StateView::Ignored(p)),
        m.contains_key(k) && m[k] == StateView::Ignored(p) ==> {
            let m2 = route(m, c);
            if c.user_data != RESERVED_COOKIE && c.user_data as usize == k && !lift(c).is_more() {
                !m2.contains_key(k)
            } else {
                m2.contains_key(k) && m2[k] == StateView::Ignored(p)
            }
        },
{
}

/// A poll of a multi-shot operation hands the payload only the leading
/// "more" completions, no more than the "more" completions queued; when a
/// terminal completion is queued, the first one is kept and is the one the
/// following poll completes with. So of `k` intermediate completions and one
/// terminal one, at most `k + 1` items reach the user, the last from the
/// terminal completion.
pub proof fn lemma_multishot_items(l: Seq<CqeResult>)
    ensures
        leading_more(l) <= more_count(l),
        forall|j: int| 0 <= j < leading_more(l) ==> (#[trigger] l[j]).is_more(),
        leading_more(l) < l.len() ==> !l[leading_more(l) as int].is_more(),
        leading_more(l) < l.len() ==> next_state(StateView::CompletionList(l), l[leading_more(l) as int]) is Some,
{
    lemma_leading_more_bound(l);
}

/// Polling a handle twice with no completion in between keeps it waiting:
/// on the newest waker, or on an earlier one it kept because it wakes the
/// same task; it never moves forward.
pub proof fn lemma_repoll_stays_waiting(
    s0: StateView,
    s1: StateView,
    s2: StateView,
    w1: Waker,
    w2: Waker,
)
    requires
        waits_after_poll(s0, s1, w1),
        waits_after_poll(s1, s2, w2),
    ensures
        s1 is Waiting,
        s2 matches StateView::Waiting(w) && (w == w2 || w == w1 || s0 == StateView::Waiting(w)),
{
}

/// Whether routing a completion touches the buffer ring: it selected a
/// buffer for an operation whose handle was dropped.
pub open spec fn touches_ring(m: Map<usize, StateView>, c: Cqe) -> bool {
    let k = c.user_data as usize;
    &&& c.user_data != RESERVED_COOKIE
    &&& m.contains_key(k)
    &&& m[k] is Ignored
    &&& selected_bid(c.flags) is Some
}

/// What one poll of handle `h0` does, from driver `d0` to `d1` and handle
/// `h0` to `h1`. A fresh or waiting operation waits on the newest waker (or
/// keeps an equivalent one); a completed one frees its slot and yields its
/// output; a multi-shot one feeds its leading "more" completions to the
/// payload, in order and once each, and keeps the first terminal one.
pub open spec fn polls_as(d0: Driver, d1: Driver, h0: Handle, h1: Handle, waker: Waker, r: Polled) -> bool {
    let k = h0.spec_key();
    let s = d0.states()[k];
    let p = h0.spec_payload()->Some_0;
    &&& d1.wf()
    &&& h1.spec_key() == k
    &&& sizes_kept(d0.ring(), d1.ring())
    &&& match s {
        StateView::Submitted | StateView::Waiting(_) => {
            &&& r is Pending
            &&& d1.states().contains_key(k)
            &&& d1.states() == d0.states().insert(k, d1.states()[k])
            &&& waits_after_poll(s, d1.states()[k], waker)
            &&& h1 == h0
            &&& d1.ring() == d0.ring()
        },
        StateView::Completed(c) => {
            &&& d1.states() == d0.states().remove(k)
            &&& h1.spec_payload() is None
            &&& r matches Polled::Ready(out) && completes_as(p, c, out, d0.ring(), d1.ring())
        },
        StateView::CompletionList(l) => {
            let n = leading_more(l);
            &&& r is Pending
            &&& d1.states() == d0.states().insert(
                k,
                if n < l.len() {
                    StateView::Completed(l[n as int])
                } else {
                    StateView::Waiting(waker)
                },
            )
            &&& h1.spec_payload() matches Some(p_after) && fed(p, p_after, l, n as int)
        },
        StateView::Ignored(_) => false,
    }
}

/// What a multi-shot handle hands out next: an item it had queued, or
/// the outcome of polling the operation.
pub enum Next<T> {
    Item(Result<T, Error>),
    Polled(Polled),
}

/// What polling a handle yields.
pub enum Polled {
    Pending,
    Ready(Result<Output, Error>),
}

/// Awaitable side of one submitted operation: the slot key, which is also
/// the cookie its completions carry, and the payload it owns until the
/// operation completes.
pub struct Handle {
    key: usize,
    payload: Option<Payload>,
}

impl Handle {
    pub closed spec fn spec_key(&self) -> usize {
        self.key
    }

    pub closed spec fn spec_payload(&self) -> Option<Payload> {
        self.payload
    }

    /// The slot key; its value as u64 is the cookie of the submission entry.
    pub fn key(&self) -> (r: usize)
        ensures
            r == self.spec_key(),
    {
        self.key
    }

    /// The payload, while the operation has not completed.
    pub fn payload(&self) -> (r: &Option<Payload>)
        ensures
            *r == self.spec_payload(),
    {
        &self.payload
    }

    /// The number of results a multi-shot payload has queued.
    pub fn queued(&self) -> (r: usize)
        ensures
            self.spec_payload() matches Some(p) ==> r == p.queued(),
            self.spec_payload() is None ==> r == 0,
    {
        match &self.payload {
            Some(Payload::AcceptMulti(m)) => m.len(),
            Some(Payload::RecvMulti(m)) => m.len(),
            _ => 0,
        }
    }

    /// Takes the oldest descriptor a streaming accept has queued.
    pub fn next_fd(&mut self) -> (r: Option<Result<i32, Error>>)
        ensures
            final(self).spec_key() == old(self).spec_key(),
            old(self).spec_payload() matches Some(Payload::AcceptMulti(m)) ==> {
                &&& final(self).spec_payload() matches Some(Payload::AcceptMulti(m2))
                &&& m.queue().len() == 0 ==> r is None && m2.queue() == m.queue()
                &&& m.queue().len() > 0 ==> r == Some(m.queue()[0]) && m2.queue()
                    == m.queue().drop_first()
            },
            !(old(self).spec_payload() matches Some(Payload::AcceptMulti(_))) ==> r is None
                && *final(self) == *old(self),
    {
        match self.payload.take() {
            Some(Payload::AcceptMulti(mut m)) => {
                let r = m.next();
                self.payload = Some(Payload::AcceptMulti(m));
                r
            },
            other => {
                self.payload = other;
                None
            },
        }
    }

    /// Takes the oldest buffer a streaming receive has queued.
    pub fn next_buffer(&mut self) -> (r: Option<Result<BufferHolder, Error>>)
        ensures
            final(self).spec_key() == old(self).spec_key(),
            old(self).spec_payload() matches Some(Payload::RecvMulti(m)) ==> {
                &&& final(self).spec_payload() matches Some(Payload::RecvMulti(m2))
                &&& m.queue().len() == 0 ==> r is None && m2.queue() == m.queue()
                &&& m.queue().len() > 0 ==> r == Some(m.queue()[0]) && m2.queue()
                    == m.queue().drop_first()
            },
            !(old(self).spec_payload() matches Some(Payload::RecvMulti(_))) ==> r is None
                && *final(self) == *old(self),
    {
        match self.payload.take() {
            Some(Payload::RecvMulti(mut m)) => {
                let r = m.next();
                self.payload = Some(Payload::RecvMulti(m));
                r
            },
            other => {
                self.payload = other;
                None
            },
        }
    }
}

/// Linux errno: the ring is busy.
pub const EBUSY: u32 = 16;
/// Linux errno: the wait was interrupted by a signal.
pub const EINTR: u32 = 4;
/// Linux errno: the buffer group is already registered.
pub const EEXIST: u32 = 17;
/// Linux errno: invalid argument.
pub const EINVAL: u32 = 22;

/// How the driver goes on after a "submit and wait" call: `Ok(true)` to
/// reap completions, `Ok(false)` when the call was busy or interrupted
/// (benign, nothing to reap), and the error otherwise.
pub fn wait_outcome(res: Result<usize, u32>) -> (r: Result<bool, Error>)
    ensures
        res is Ok ==> r == Ok::<bool, Error>(true),
        res matches Err(e) ==> (e == EBUSY || e == EINTR) ==> r == Ok::<bool, Error>(false),
        res matches Err(e) ==> !(e == EBUSY || e == EINTR) ==> r == Err::<bool, Error>(
            Error::Kernel(e),
        ),
{
    match res {
        Ok(_) => Ok(true),
        Err(e) => {
            if e == EBUSY || e == EINTR {
                Ok(false)
            } else {
                Err(Error::Kernel(e))
            }
        },
    }
}

/// The error a failed buffer-ring registration is reported as: "invalid"
/// means the kernel is too old, "exists" that the group id is taken.
pub fn registration_error(errno: u32) -> (r: Error)
    ensures
        errno == EINVAL ==> r == Error::KernelTooOld,
        errno == EEXIST ==> r == Error::AlreadyRegistered,
        errno != EINVAL && errno != EEXIST ==> r == Error::Kernel(errno),
{
    if errno == EINVAL {
        Error::KernelTooOld
    } else if errno == EEXIST {
        Error::AlreadyRegistered
    } else {
        Error::Kernel(errno)
    }
}

/// Start-up check of the kernel features the runtime needs: fast poll and
/// buffer selection.
pub fn check_features(fast_poll: bool, buffer_select: bool) -> (r: Result<(), Error>)
    ensures
        r is Ok <==> fast_poll && buffer_select,
        r is Err ==> r == Err::<(), Error>(Error::FeatureUnsupported),
{
    if fast_poll && buffer_select {
        Ok(())
    } else {
        Err(Error::FeatureUnsupported)
    }
}

/// Number of operation slots reserved up front.
pub const OPS_CAPACITY: usize = 256;

/// The driver's bookkeeping: the table of in-flight operations, keyed by
/// the cookie their completions carry, and the buffer ring.
pub struct Driver {
    ops: Slab<OpState>,
    bufgroup: BufRing,
}

impl Driver {
    pub closed spec fn states(&self) -> Map<usize, StateView> {
        slab_states(self.ops).map_values(|s: OpState| view_of(s))
    }

    pub closed spec fn ring(&self) -> BufRing {
        self.bufgroup
    }

    pub closed spec fn wf(&self) -> bool {
        self.bufgroup.wf()
    }

    /// Whether a handle may be polled: its slot is tracked, not ignored,
    /// and it still owns its payload.
    pub open spec fn pollable(&self, h: Handle) -> bool {
        &&& self.states().contains_key(h.spec_key())
        &&& !(self.states()[h.spec_key()] is Ignored)
        &&& h.spec_payload() is Some
    }

    /// A driver with no operation in flight.
    pub fn new(bufgroup: BufRing) -> (r: Driver)
        requires
            bufgroup.wf(),
        ensures
            r.wf(),
            r.states() == Map::<usize, StateView>::empty(),
            r.ring() == bufgroup,
    {
        let ops = slab_with_capacity(OPS_CAPACITY);
        let r = Driver { ops, bufgroup };
        proof {
            assert(r.states() =~= Map::<usize, StateView>::empty());
        }
        r
    }

    /// The buffer ring.
    pub fn buf_ring(&self) -> (r: &BufRing)
        ensures
            *r == self.ring(),
    {
        &self.bufgroup
    }

    /// The number of operations in flight.
    pub fn in_flight(&self) -> (r: usize)
        ensures
            r == self.states().len(),
    {
        proof {
            assert(self.states().dom() =~= slab_states(self.ops).dom());
        }
        slab_len(&self.ops)
    }

    /// Returns a holder's buffer to the ring (see `BufRing::release`).
    pub fn release(&mut self, h: BufferHolder) -> (r: bool)
        requires
            old(self).wf(),
        ensures
            final(self).wf(),
            final(self).states() == old(self).states(),
            sizes_kept(old(self).ring(), final(self).ring()),
            r == (h.spec_owned() && h.spec_bid() < old(self).ring().spec_buf_cnt()
                && old(self).ring().is_loaned(h.spec_bid())),
            r ==> released(old(self).ring(), final(self).ring(), h.spec_bid()),
            !r ==> final(self).ring() == old(self).ring(),
    {
        self.bufgroup.release(h)
    }

    /// Serves a stream read from its cursor, returning an exhausted buffer
    /// to the ring (see `ReadCursor::fill`).
    pub fn fill(&mut self, c: &mut ReadCursor) -> (r: FillStep)
        requires
            old(self).wf(),
            old(c).wf(),
        ensures
            final(self).wf(),
            final(self).states() == old(self).states(),
            sizes_kept(old(self).ring(), final(self).ring()),
            final(c).wf(),
            old(c).remaining() > 0 ==> r == (FillStep::Ready {
                start: old(c).position(),
                end: old(c).held()->Some_0.spec_len(),
            }) && *final(c) == *old(c) && final(self).ring() == old(self).ring(),
            old(c).remaining() == 0 ==> r == FillStep::NeedRead && final(c).held() is None
                && final(c).position() == 0 && returned(
                old(self).ring(),
                final(self).ring(),
                old(c).held(),
            ),
    {
        c.fill(&mut self.bufgroup)
    }

    /// Stores in a stream's cursor the buffer a read returned (see
    /// `ReadCursor::on_read`).
    pub fn fill_from(&mut self, c: &mut ReadCursor, h: BufferHolder) -> (r: FillStep)
        requires
            old(self).wf(),
        ensures
            final(self).wf(),
            final(self).states() == old(self).states(),
            sizes_kept(old(self).ring(), final(self).ring()),
            returned(old(self).ring(), final(self).ring(), old(c).held()),
            final(c).wf(),
            final(c).held() == Some(h),
            final(c).position() == 0,
            r == (FillStep::Ready { start: 0, end: h.spec_len() }),
    {
        c.on_read(h, &mut self.bufgroup)
    }

    /// Resolves a buffer-select completion through the ring (see `BufRing::get`).
    pub fn get_buf(&mut self, cqe: CqeResult) -> (r: Result<BufferHolder, Error>)
        requires
            old(self).wf(),
        ensures
            final(self).wf(),
            final(self).states() == old(self).states(),
            sizes_kept(old(self).ring(), final(self).ring()),
            resolves_as(old(self).ring(), final(self).ring(), cqe, r),
    {
        self.bufgroup.get(cqe)
    }

    /// Tracks a new operation as submitted and returns its handle. The
    /// caller stamps the handle's key on the submission entry as cookie.
    pub fn submit(&mut self, payload: Payload) -> (h: Handle)
        requires
            old(self).wf(),
        ensures
            final(self).wf(),
            final(self).ring() == old(self).ring(),
            !old(self).states().contains_key(h.spec_key()),
            final(self).states() == old(self).states().insert(h.spec_key(), StateView::Submitted),
            h.spec_payload() == Some(payload),
    {
        let key = slab_insert(&mut self.ops, OpState::Submitted);
        proof {
            assert(self.states() =~= old(self).states().insert(key, StateView::Submitted));
        }
        Handle { key, payload: Some(payload) }
    }

    /// Whether an operation is tracked and has not completed.
    pub open spec fn unfinished(&self, key: usize) -> bool {
        self.states().contains_key(key) && (self.states()[key] is Submitted
            || self.states()[key] is Waiting)
    }

    /// Installs `waker` on an operation that has not completed, so that its
    /// completion wakes that task before the handle is first polled.
    /// Completed, multi-shot and ignored operations are left as they are.
    pub fn reset_waker(&mut self, key: usize, waker: Waker)
        requires
            old(self).wf(),
        ensures
            final(self).wf(),
            final(self).ring() == old(self).ring(),
            old(self).unfinished(key) ==> final(self).states() == old(self).states().insert(
                key,
                StateView::Waiting(waker),
            ),
            !old(self).unfinished(key) ==> final(self).states() == old(self).states(),
    {
        let ghost m = old(self).states();
        match slab_swap(&mut self.ops, key, OpState::Submitted) {
            None => {},
            Some(OpState::Submitted) | Some(OpState::Waiting(_)) => {
                let _ = slab_swap(&mut self.ops, key, OpState::Waiting(waker));
                proof {
                    assert(self.states() =~= m.insert(key, StateView::Waiting(waker)));
                }
            },
            Some(other) => {
                let ghost o = other;
                let _ = slab_swap(&mut self.ops, key, other);
                proof {
                    assert(m[key] == view_of(o));
                    assert(self.states() =~= m);
                }
            },
        }
    }

    /// Routes one completion to the operation its cookie names, waking the
    /// awaiting task if there is one. An ignored operation's selected
    /// buffer goes back to the ring, and its terminal completion frees the slot.
    pub fn dispatch(&mut self, cqe: Cqe)
        requires
            old(self).wf(),
        ensures
            final(self).wf(),
            final(self).states() == route(old(self).states(), cqe),
            sizes_kept(old(self).ring(), final(self).ring()),
            !touches_ring(old(self).states(), cqe) ==> final(self).ring() == old(self).ring(),
            touches_ring(old(self).states(), cqe) ==> {
                let b = selected_bid(cqe.flags)->Some_0;
                if b < old(self).ring().spec_buf_cnt() && !old(self).ring().is_loaned(b) {
                    recycled(old(self).ring(), final(self).ring(), b)
                } else {
                    final(self).ring() == old(self).ring()
                }
            },
            forall|b: u16| final(self).ring().is_loaned(b) == old(self).ring().is_loaned(b),
    {
        if cqe.is_reserved() {
            return ;
        }
        let key = cqe.user_data as usize;
        let c = CqeResult::from_cqe(cqe);
        let more = c.more();
        let ghost m0 = slab_states(self.ops);
        match slab_swap(&mut self.ops, key, OpState::Submitted) {
            None => {},
            Some(OpState::Submitted) => {
                let ns = if more {
                    let mut l: Vec<CqeResult> = Vec::new();
                    l.push(c);
                    OpState::CompletionList(l)
                } else {
                    OpState::Completed(c)
                };
                let _ = slab_swap(&mut self.ops, key, ns);
            },
            Some(OpState::Waiting(w)) => {
                let ns = if more {
                    let mut l: Vec<CqeResult> = Vec::new();
                    l.push(c);
                    OpState::CompletionList(l)
                } else {
                    OpState::Completed(c)
                };
                let _ = slab_swap(&mut self.ops, key, ns);
                w.wake();
            },
            Some(OpState::Ignored(p)) => {
                if let Some(bid) = io_uring::cqueue::buffer_select(c.flags) {
                    self.bufgroup.recycle(bid);
                }
                if more {
                    let _ = slab_swap(&mut self.ops, key, OpState::Ignored(p));
                } else {
                    let _ = slab_try_remove(&mut self.ops, key);
                }
            },
            Some(OpState::CompletionList(l)) => {
                let mut l = l;
                l.push(c);
                let _ = slab_swap(&mut self.ops, key, OpState::CompletionList(l));
            },
            Some(OpState::Completed(d)) => {
                let _ = slab_swap(&mut self.ops, key, OpState::Completed(d));
            },
        }
        proof {
            assert(c == lift(cqe));
            let m = old(self).states();
            if m.contains_key(key) {
                match next_state(m[key], c) {
                    Some(s) => {
                        if m[key] is Submitted || m[key] is Waiting {
                            if more {
                                assert(seq![c] =~= Seq::empty().push(c));
                            }
                        }
                        assert(self.states() =~= m.insert(key, s));
                    },
                    None => {
                        assert(self.states() =~= m.remove(key));
                    },
                }
            } else {
                assert(self.states() =~= m);
            }
        }
    }

    /// Routes a batch of completions, in order.
    pub fn reap(&mut self, cqes: &Vec<Cqe>)
        requires
            old(self).wf(),
        ensures
            final(self).wf(),
            final(self).states() == route_all(old(self).states(), cqes@),
            sizes_kept(old(self).ring(), final(self).ring()),
            forall|b: u16| final(self).ring().is_loaned(b) == old(self).ring().is_loaned(b),
            (forall|j: int|
                0 <= j < cqes@.len() ==> !touches_ring(
                    route_all(old(self).states(), #[trigger] cqes@.take(j)),
                    cqes@[j],
                )) ==> final(self).ring() == old(self).ring(),
    {
        let mut i: usize = 0;
        while i < cqes.len()
            invariant
                i <= cqes@.len(),
                self.wf(),
                self.states() == route_all(old(self).states(), cqes@.take(i as int)),
                sizes_kept(old(self).ring(), self.ring()),
                (forall|j: int|
                    0 <= j < i ==> !touches_ring(
                        route_all(old(self).states(), #[trigger] cqes@.take(j)),
                        cqes@[j],
                    )) ==> self.ring() == old(self).ring(),
                self.ring().spec_bgid() == old(self).ring().spec_bgid(),
                self.ring().spec_buf_cnt() == old(self).ring().spec_buf_cnt(),
                self.ring().spec_buf_len() == old(self).ring().spec_buf_len(),
                self.ring().spec_ring_entries() == old(self).ring().spec_ring_entries(),
                forall|b: u16| self.ring().is_loaned(b) == old(self).ring().is_loaned(b),
            decreases cqes@.len() - i,
        {
            proof {
                assert(cqes@.take(i as int + 1).drop_last() =~= cqes@.take(i as int));
                assert(cqes@.take(i as int + 1).last() == cqes@[i as int]);
            }
            self.dispatch(cqes[i]);
            i = i + 1;
        }
        proof {
            assert(cqes@.take(cqes@.len() as int) =~= cqes@);
        }
    }

    /// Polls a handle. A fresh operation records the waker; a waiting one
    /// keeps its waker when it wakes the same task and takes the new one
    /// otherwise; a completed one frees its slot and yields its output; a
    /// multi-shot one feeds each queued "more" completion to the payload,
    /// wakes the task again when it fed any, and keeps the first terminal
    /// completion for the next poll.
    pub fn poll(&mut self, h: &mut Handle, waker: Waker) -> (r: Polled)
        requires
            old(self).wf(),
            old(self).pollable(*old(h)),
        ensures
            polls_as(*old(self), *final(self), *old(h), *final(h), waker, r),
    {
        let key = h.key;
        let ghost m = old(self).states();
        let st = slab_swap(&mut self.ops, key, OpState::Submitted);
        match st {
            Some(OpState::Submitted) => {
                let _ = slab_swap(&mut self.ops, key, OpState::Waiting(waker));
                proof {
                    assert(self.states() =~= m.insert(key, StateView::Waiting(waker)));
                }
                Polled::Pending
            },
            Some(OpState::Waiting(w)) => {
                let keep = w.will_wake(&waker);
                let chosen = if keep {
                    w
                } else {
                    waker
                };
                let ghost g = chosen;
                let _ = slab_swap(&mut self.ops, key, OpState::Waiting(chosen));
                proof {
                    assert(self.states() =~= m.insert(key, StateView::Waiting(g)));
                }
                Polled::Pending
            },
            Some(OpState::Completed(c)) => {
                let _ = slab_try_remove(&mut self.ops, key);
                proof {
                    assert(self.states() =~= m.remove(key));
                }
                match h.payload.take() {
                    Some(p) => {
                        let out = p.complete(c, &mut self.bufgroup);
                        Polled::Ready(out)
                    },
                    None => Polled::Pending,
                }
            },
            Some(OpState::CompletionList(list)) => {
                let mut p = match h.payload.take() {
                    Some(p) => p,
                    None => Payload::Close,
                };
                let ghost p_start = p;
                let ghost l = list@;
                proof {
                    lemma_fed_start(p, l);
                }
                let ghost ops_mid = slab_states(self.ops);
                let mut i: usize = 0;
                while i < list.len() && list[i].more()
                    invariant
                        i <= list@.len(),
                        l == list@,
                        slab_states(self.ops) == ops_mid,
                        self.bufgroup.wf(),
                        self.bufgroup.spec_bgid() == old(self).bufgroup.spec_bgid(),
                        self.bufgroup.spec_buf_cnt() == old(self).bufgroup.spec_buf_cnt(),
                        self.bufgroup.spec_buf_len() == old(self).bufgroup.spec_buf_len(),
                        self.bufgroup.spec_ring_entries() == old(self).bufgroup.spec_ring_entries(),
                        forall|j: int| 0 <= j < i ==> (#[trigger] l[j]).is_more(),
                        fed(p_start, p, l, i as int),
                    decreases list@.len() - i,
                {
                    let ghost p_before = p;
                    let ghost ring_before = self.bufgroup;
                    p.update(list[i], &mut self.bufgroup);
                    proof {
                        lemma_fed_step(p_start, p_before, p, l, i as int, ring_before, self.bufgroup);
                    }
                    i = i + 1;
                }
                proof {
                    lemma_leading_more(l, i as int);
                }
                if i > 0 {
                    waker.wake_by_ref();
                }
                h.payload = Some(p);
                if i < list.len() {
                    let c = list[i];
                    let _ = slab_swap(&mut self.ops, key, OpState::Completed(c));
                    proof {
                        assert(self.states() =~= m.insert(key, StateView::Completed(l[i as int])));
                    }
                } else {
                    let _ = slab_swap(&mut self.ops, key, OpState::Waiting(waker));
                    proof {
                        assert(self.states() =~= m.insert(key, StateView::Waiting(waker)));
                    }
                }
                Polled::Pending
            },
            Some(OpState::Ignored(p)) => {
                let _ = slab_swap(&mut self.ops, key, OpState::Ignored(p));
                Polled::Pending
            },
            None => Polled::Pending,
        }
    }

    /// Hands out the next item of a streaming receive: a queued buffer
    /// first, without touching the driver; only when none is queued is the
    /// operation polled, and its terminal result comes after every item.
    pub fn poll_recv_multi(&mut self, h: &mut Handle, waker: Waker) -> (r: Next<BufferHolder>)
        requires
            old(self).wf(),
            old(self).pollable(*old(h)),
            old(h).spec_payload() matches Some(Payload::RecvMulti(_)),
        ensures
            match old(h).spec_payload() {
                Some(Payload::RecvMulti(m)) => if m.queue().len() > 0 {
                    &&& r == Next::<BufferHolder>::Item(m.queue()[0])
                    &&& *final(self) == *old(self)
                    &&& final(h).spec_key() == old(h).spec_key()
                    &&& final(h).spec_payload() matches Some(Payload::RecvMulti(m2)) && m2.queue()
                        == m.queue().drop_first()
                } else {
                    r matches Next::Polled(pr) && polls_as(
                        *old(self),
                        *final(self),
                        *old(h),
                        *final(h),
                        waker,
                        pr,
                    )
                },
                _ => true,
            },
    {
        if h.queued() > 0 {
            match h.next_buffer() {
                Some(item) => Next::Item(item),
                None => Next::Item(Err(Error::BufferNotFound)),
            }
        } else {
            Next::Polled(self.poll(h, waker))
        }
    }

    /// Hands out the next descriptor of a streaming accept: a queued one
    /// first, without touching the driver; only when none is queued is the
    /// operation polled, and its terminal result comes after every item.
    pub fn poll_accept_multi(&mut self, h: &mut Handle, waker: Waker) -> (r: Next<i32>)
        requires
            old(self).wf(),
            old(self).pollable(*old(h)),
            old(h).spec_payload() matches Some(Payload::AcceptMulti(_)),
        ensures
            match old(h).spec_payload() {
                Some(Payload::AcceptMulti(m)) => if m.queue().len() > 0 {
                    &&& r == Next::<i32>::Item(m.queue()[0])
                    &&& *final(self) == *old(self)
                    &&& final(h).spec_key() == old(h).spec_key()
                    &&& final(h).spec_payload() matches Some(Payload::AcceptMulti(m2)) && m2.queue()
                        == m.queue().drop_first()
                } else {
                    r matches Next::Polled(pr) && polls_as(
                        *old(self),
                        *final(self),
                        *old(h),
                        *final(h),
                        waker,
                        pr,
                    )
                },
                _ => true,
            },
    {
        if h.queued() > 0 {
            match h.next_fd() {
                Some(item) => Next::Item(item),
                None => Next::Item(Err(Error::InvalidInput)),
            }
        } else {
            Next::Polled(self.poll(h, waker))
        }
    }

    /// Takes back a handle whose submission entry never reached the
    /// kernel: no completion will come for it, so its slot is freed now.
    pub fn withdraw(&mut self, h: Handle)
        requires
            old(self).wf(),
            old(self).states().contains_key(h.spec_key()),
            old(self).states()[h.spec_key()] is Submitted,
        ensures
            final(self).wf(),
            final(self).ring() == old(self).ring(),
            final(self).states() == old(self).states().remove(h.spec_key()),
    {
        let ghost m = old(self).states();
        let _ = slab_try_remove(&mut self.ops, h.key);
        proof {
            assert(self.states() =~= m.remove(h.key));
        }
    }

    /// Drops a handle. An operation the kernel may still write for (not
    /// yet completed, or a multi-shot one still streaming) keeps its payload
    /// in the table until its terminal completion, and the returned cookie
    /// is the one to cancel; a finished one frees its slot. A handle whose
    /// operation already yielded its output changes nothing.
    pub fn drop_handle(&mut self, h: Handle) -> (cancel: Option<u64>)
        requires
            old(self).wf(),
            h.spec_payload() is Some && old(self).states().contains_key(h.spec_key()) ==> !(old(self).states()[h.spec_key()] is Ignored),
        ensures
            final(self).wf(),
            final(self).ring() == old(self).ring(),
            ({
                let k = h.spec_key();
                if h.spec_payload() is None || !old(self).states().contains_key(k) {
                    cancel is None && final(self).states() == old(self).states()
                } else {
                    match dropped_state(old(self).states()[k], h.spec_payload()->Some_0) {
                        Some(s) => cancel == Some(k as u64) && final(self).states() == old(self).states().insert(k, s),
                        None => cancel is None && final(self).states() == old(self).states().remove(k),
                    }
                }
            }),
    {
        let key = h.key;
        let ghost m = old(self).states();
        let p = match h.payload {
            Some(p) => p,
            None => {
                return None;
            },
        };
        let ghost p_start = p;
        match slab_swap(&mut self.ops, key, OpState::Submitted) {
            None => None,
            Some(OpState::Submitted) | Some(OpState::Waiting(_)) => {
                let _ = slab_swap(&mut self.ops, key, OpState::Ignored(p));
                proof {
                    assert(self.states() =~= m.insert(key, StateView::Ignored(p_start)));
                }
                Some(key as u64)
            },
            Some(OpState::Completed(_)) => {
                let _ = slab_try_remove(&mut self.ops, key);
                proof {
                    assert(self.states() =~= m.remove(key));
                }
                None
            },
            Some(OpState::CompletionList(l)) => {
                let n = l.len();
                if n > 0 && l[n - 1].more() {
                    let _ = slab_swap(&mut self.ops, key, OpState::Ignored(p));
                    proof {
                        assert(self.states() =~= m.insert(key, StateView::Ignored(p_start)));
                    }
                    Some(key as u64)
                } else {
                    let _ = slab_try_remove(&mut self.ops, key);
                    proof {
                        assert(self.states() =~= m.remove(key));
                    }
                    None
                }
            },
            Some(OpState::Ignored(q)) => {
                let _ = slab_swap(&mut self.ops, key, OpState::Ignored(q));
                None
            },
        }
    }
}

} // verus!

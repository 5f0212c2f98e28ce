use vstd::prelude::*;
use std::collections::VecDeque;
use std::task::Waker;

verus! {

/// The most tasks one tick runs.
pub const MAX_TASKS_PER_TICK: usize = 64;

/// The number of tasks a tick takes from a queue of `n`.
pub open spec fn batch_len(n: nat) -> nat {
    if n < MAX_TASKS_PER_TICK {
        n
    } else {
        MAX_TASKS_PER_TICK as nat
    }
}

/// The FIFO of runnable tasks of a single-threaded executor, and the slot
/// for the waker of a parked `block_on`.
pub struct TaskQueue<T> {
    queue: VecDeque<T>,
    parked: Option<Waker>,
}

impl<T> TaskQueue<T> {
    pub closed spec fn tasks(&self) -> Seq<T> {
        self.queue@
    }

    pub closed spec fn parked_waker(&self) -> Option<Waker> {
        self.parked
    }

    /// An empty queue with no parked waker.
    pub fn new() -> (r: TaskQueue<T>)
        ensures
            r.tasks().len() == 0,
            r.parked_waker() is None,
    {
        TaskQueue { queue: VecDeque::new(), parked: None }
    }

    /// Installs the waker of a `block_on` about to park.
    pub fn park(&mut self, waker: Waker)
        ensures
            final(self).tasks() == old(self).tasks(),
            final(self).parked_waker() == Some(waker),
    {
        self.parked = Some(waker);
    }

    /// Schedules a task at the back of the queue and hands back the parked
    /// waker, if any, for the caller to wake; the slot is left empty.
    pub fn schedule(&mut self, task: T) -> (r: Option<Waker>)
        ensures
            final(self).tasks() == old(self).tasks().push(task),
            r == old(self).parked_waker(),
            final(self).parked_waker() is None,
    {
        self.queue.push_back(task);
        self.parked.take()
    }

    /// Takes the task at the front of the queue.
    pub fn next_task(&mut self) -> (r: Option<T>)
        ensures
            old(self).tasks().len() == 0 ==> r is None && final(self).tasks() == old(self).tasks(),
            old(self).tasks().len() > 0 ==> r == Some(old(self).tasks()[0]) && final(self).tasks()
                == old(self).tasks().drop_first(),
            final(self).parked_waker() == old(self).parked_waker(),
    {
        self.queue.pop_front()
    }

    /// The number of queued tasks.
    pub fn len(&self) -> (r: usize)
        ensures
            r == self.tasks().len(),
    {
        self.queue.len()
    }

    /// Whether no task is queued.
    pub fn is_empty(&self) -> (r: bool)
        ensures
            r == (self.tasks().len() == 0),
    {
        self.queue.len() == 0
    }

    /// Takes the tasks one tick runs: up to `MAX_TASKS_PER_TICK` from the
    /// front, in order. The tick made progress when the batch is not empty,
    /// that is when the queue was not empty at its start.
    pub fn tick(&mut self) -> (batch: Vec<T>)
        ensures
            batch@ == old(self).tasks().take(batch_len(old(self).tasks().len()) as int),
            final(self).tasks() == old(self).tasks().skip(batch_len(old(self).tasks().len()) as int),
            (batch@.len() > 0) == (old(self).tasks().len() > 0),
            final(self).parked_waker() == old(self).parked_waker(),
    {
        let mut batch: Vec<T> = Vec::new();
        let ghost q0 = self.queue@;
        let n = batch_count(self.queue.len());
        while batch.len() < n
            invariant
                n == batch_len(q0.len()),
                batch@.len() <= n,
                batch@ == q0.take(batch@.len() as int),
                self.queue@ == q0.skip(batch@.len() as int),
                self.parked == old(self).parked,
            decreases n - batch@.len(),
        {
            let t = self.queue.pop_front().unwrap();
            proof {
                assert(q0.take(batch@.len() as int + 1) =~= q0.take(batch@.len() as int).push(t));
            }
            batch.push(t);
            proof {
                assert(self.queue@ =~= q0.skip(batch@.len() as int));
            }
        }
        batch
    }
}

fn batch_count(n: usize) -> (r: usize)
    ensures
        r == batch_len(n as nat),
{
    if n < MAX_TASKS_PER_TICK {
        n
    } else {
        MAX_TASKS_PER_TICK
    }
}

/// What `block_on` does next after one poll of its future.
#[derive(Clone, Copy, PartialEq, Eq, Structural, Debug)]
pub enum Step {
    /// The future is ready: return its output.
    Return,
    /// Tasks ran: poll the future again.
    Repoll,
    /// Nothing ran: park in the driver until a completion arrives.
    Park,
}

/// The decision of one round of `block_on`: return once the future is
/// ready; otherwise poll again after a tick that ran tasks, and park in the
/// driver's wait after one that ran none.
pub fn block_on_step(ready: bool, progressed: bool) -> (r: Step)
    ensures
        ready ==> r == Step::Return,
        !ready && progressed ==> r == Step::Repoll,
        !ready && !progressed ==> r == Step::Park,
{
    if ready {
        Step::Return
    } else if progressed {
        Step::Repoll
    } else {
        Step::Park
    }
}

} // verus!

use vstd::prelude::*;

verus! {

/// Nanoseconds in a second.
pub const NANOS_PER_SEC: u64 = 1_000_000_000;

/// What a timer does when polled, given its deadline and the time now,
/// both in nanoseconds from one origin.
#[derive(Clone, Copy, PartialEq, Eq, Structural, Debug)]
pub enum TimerStep {
    /// The deadline has passed: the timer is ready.
    Elapsed,
    /// No timeout is in flight: submit one of this length.
    Submit { sec: u64, nsec: u32 },
    /// A timeout is in flight: poll it.
    Poll,
}

/// Splits a length in nanoseconds into seconds and the nanoseconds beyond.
pub fn split_nanos(ns: u64) -> (r: (u64, u32))
    ensures
        r.0 == ns / NANOS_PER_SEC,
        r.1 == ns % NANOS_PER_SEC,
        r.1 < NANOS_PER_SEC,
{
    let sec = ns / NANOS_PER_SEC;
    let nsec = ns % NANOS_PER_SEC;
    (sec, nsec as u32)
}

/// The decision of one poll of a timer: ready once the deadline is not
/// after now; otherwise poll the timeout in flight, or submit one for the
/// time left.
pub fn timer_step(deadline: u64, now: u64, armed: bool) -> (r: TimerStep)
    ensures
        deadline <= now ==> r == TimerStep::Elapsed,
        deadline > now && armed ==> r == TimerStep::Poll,
        deadline > now && !armed ==> r == (TimerStep::Submit {
            sec: ((deadline - now) / NANOS_PER_SEC as int) as u64,
            nsec: ((deadline - now) % NANOS_PER_SEC as int) as u32,
        }),
{
    if deadline <= now {
        TimerStep::Elapsed
    } else if armed {
        TimerStep::Poll
    } else {
        let (sec, nsec) = split_nanos(deadline - now);
        TimerStep::Submit { sec, nsec }
    }
}

/// The timeout a reset submits for a new deadline: the time left, or zero
/// when the deadline has passed.
pub fn reset_timeout(deadline: u64, now: u64) -> (r: (u64, u32))
    ensures
        deadline > now ==> r.0 == (deadline - now) / NANOS_PER_SEC as int && r.1 == (deadline
            - now) % NANOS_PER_SEC as int,
        deadline <= now ==> r == (0u64, 0u32),
{
    if deadline > now {
        split_nanos(deadline - now)
    } else {
        (0, 0)
    }
}

} // verus!

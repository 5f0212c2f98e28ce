use vstd::prelude::*;
use std::task::Waker;
use crate::cqe::Cqe;
use crate::error::Error;

verus! {

/// Shared state of a one-shot read awaited by a task: the result once it
/// arrives, the waker of the task awaiting it, and the completion flags.
pub struct ReadAction {
    pub ret: Option<Result<i32, Error>>,
    pub waker: Option<Waker>,
    pub flags: u32,
}

impl ReadAction {
    /// No result yet and no task awaiting.
    pub fn new() -> (r: ReadAction)
        ensures
            r.ret is None,
            r.waker is None,
            r.flags == 0,
    {
        ReadAction { ret: None, waker: None, flags: 0 }
    }

    /// Records a completion: a negative result is the negated errno. The
    /// waker of the awaiting task, if any, is handed back to be woken.
    pub fn trigger(&mut self, cqe: Cqe) -> (r: Option<Waker>)
        ensures
            final(self).ret == Some(crate::payload::lift_fd(crate::cqe::lift_result(cqe.result))),
            final(self).flags == cqe.flags,
            final(self).waker is None,
            r == old(self).waker,
    {
        let res = if cqe.result >= 0 {
            Ok(cqe.result)
        } else {
            let errno: i64 = 0i64 - (cqe.result as i64);
            Err(Error::Kernel(errno as u32))
        };
        self.ret = Some(res);
        self.flags = cqe.flags;
        self.waker.take()
    }

    /// Takes the result if it arrived; otherwise records the waker of the
    /// polling task unless one is already recorded.
    pub fn poll(&mut self, waker: Waker) -> (r: Option<Result<i32, Error>>)
        ensures
            r == old(self).ret,
            final(self).ret is None,
            final(self).flags == old(self).flags,
            old(self).ret is Some ==> final(self).waker == old(self).waker,
            old(self).ret is None && old(self).waker is None ==> final(self).waker == Some(waker),
            old(self).ret is None && old(self).waker is Some ==> final(self).waker == old(self).waker,
    {
        match self.ret.take() {
            Some(res) => Some(res),
            None => {
                if self.waker.is_none() {
                    self.waker = Some(waker);
                }
                None
            },
        }
    }
}

} // verus!

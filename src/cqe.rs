use vstd::prelude::*;
use crate::error::Error;

verus! {

/// Flag bit: the completion selected a provided buffer.
pub const CQE_F_BUFFER: u32 = 1;
/// Flag bit: more completions will follow for the same submission.
pub const CQE_F_MORE: u32 = 2;
/// Shift of the selected buffer id inside the flags word.
pub const CQE_BUFFER_SHIFT: u32 = 16;
/// The cookie reserved for fire-and-forget entries; never a tracked operation.
pub const RESERVED_COOKIE: u64 = 0xffff_ffff_ffff_ffff;

/// Whether a completion's flags carry the "more" bit.
pub open spec fn more_flag(flags: u32) -> bool {
    flags & CQE_F_MORE != 0
}

/// The buffer id a completion's flags select, if any.
pub open spec fn selected_bid(flags: u32) -> Option<u16> {
    if flags & CQE_F_BUFFER != 0 {
        Some((flags >> CQE_BUFFER_SHIFT) as u16)
    } else {
        None
    }
}

/// Relies on io_uring::cqueue::more: it tests the `IORING_CQE_F_MORE` bit (value 2).
pub assume_specification[ io_uring::cqueue::more ](flags: u32) -> (r: bool)
    ensures
        r == more_flag(flags),
;

/// Relies on io_uring::cqueue::buffer_select: when the `IORING_CQE_F_BUFFER` bit
/// (value 1) is set, the id is the flags shifted right by 16, truncated to 16 bits.
pub assume_specification[ io_uring::cqueue::buffer_select ](flags: u32) -> (r: Option<u16>)
    ensures
        r == selected_bid(flags),
;

/// A completion queue entry, as plain values.
#[derive(Clone, Copy, PartialEq, Eq, Structural, Debug)]
pub struct Cqe {
    /// The cookie the submission carried.
    pub user_data: u64,
    /// Non-negative on success; the negated errno on failure.
    pub result: i32,
    /// Completion flags ("more", "buffer selected" and the buffer id).
    pub flags: u32,
}

/// A completion as operations consume it: the result lifted to success or errno.
#[derive(Clone, Copy, Debug)]
pub struct CqeResult {
    pub result: Result<u32, Error>,
    pub flags: u32,
}

/// The result a raw completion result lifts to.
pub open spec fn lift_result(res: i32) -> Result<u32, Error> {
    if res >= 0 {
        Ok(res as u32)
    } else {
        Err(Error::Kernel((-res) as u32))
    }
}

impl Cqe {
    pub open spec fn is_more(self) -> bool {
        more_flag(self.flags)
    }

    /// Whether this completion carries the "more" flag.
    pub fn more(&self) -> (r: bool)
        ensures
            r == self.is_more(),
    {
        io_uring::cqueue::more(self.flags)
    }

    /// Whether this completion belongs to a fire-and-forget entry.
    pub fn is_reserved(&self) -> (r: bool)
        ensures
            r == (self.user_data == RESERVED_COOKIE),
    {
        self.user_data == RESERVED_COOKIE
    }
}

impl CqeResult {
    /// Lifts a raw completion: a negative result becomes `Kernel(errno)`.
    pub fn from_cqe(cqe: Cqe) -> (r: CqeResult)
        ensures
            r.result == lift_result(cqe.result),
            r.flags == cqe.flags,
    {
        let result = if cqe.result >= 0 {
            Ok(cqe.result as u32)
        } else {
            let errno: i64 = 0i64 - (cqe.result as i64);
            Err(Error::Kernel(errno as u32))
        };
        CqeResult { result, flags: cqe.flags }
    }

    pub open spec fn is_more(self) -> bool {
        more_flag(self.flags)
    }

    /// Whether this completion carries the "more" flag.
    pub fn more(&self) -> (r: bool)
        ensures
            r == self.is_more(),
    {
        io_uring::cqueue::more(self.flags)
    }
}

} // verus!

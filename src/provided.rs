use vstd::prelude::*;

verus! {

/// Buffer group id of a provided-buffers block.
pub const GROUP_ID: u16 = 1337;

/// A contiguous block of `num` buffers of `size` bytes each, handed to the
/// kernel with the provide-buffers opcode; buffer `bid` starts at byte
/// `bid * size`.
#[derive(Debug)]
pub struct Buffers {
    pub size: usize,
    pub num: usize,
    pub mem: Vec<u8>,
}

impl Buffers {
    /// Allocates room for `num` buffers of `size` bytes.
    pub fn new(num: usize, size: usize) -> (r: Buffers)
        requires
            num * size <= usize::MAX,
        ensures
            r.num == num,
            r.size == size,
            r.mem@.len() == num * size,
    {
        let total = num * size;
        let mem = vec![0u8; total];
        Buffers { size, num, mem }
    }

    /// Byte offset of buffer `bid` in the block.
    pub fn offset(&self, bid: u16) -> (r: usize)
        requires
            (bid as int) < self.num,
            self.num * self.size <= usize::MAX,
        ensures
            r == bid * self.size,
            r + self.size <= self.num * self.size,
    {
        proof {
            assert((bid as int) * self.size + self.size <= self.num * self.size) by (nonlinear_arith)
                requires
                    (bid as int) < self.num,
            ;
        }
        bid as usize * self.size
    }
}

} // verus!

use vstd::prelude::*;

verus! {

/// The errors the runtime reports to its callers.
#[derive(Clone, Copy, PartialEq, Eq, Structural, Debug)]
pub enum Error {
    /// A negative completion result, carrying the positive errno.
    Kernel(u32),
    /// Bad arguments at configuration time.
    InvalidInput,
    /// The kernel lacks a required opcode or feature.
    FeatureUnsupported,
    /// The buffer group id was already registered with the ring.
    AlreadyRegistered,
    /// Buffer-ring registration was rejected as invalid: the kernel is too old.
    KernelTooOld,
    /// A completion that should have selected a provided buffer did not.
    BufferNotFound,
    /// A timeout completed with a success result instead of expiring.
    TimedOut,
}

} // verus!

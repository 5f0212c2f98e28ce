//! Core of a completion-ring I/O runtime: the buffer ring, the per-operation
//! state machine, the driver's completion routing, and the cooperative task
//! queue, each modelled over plain values and verified.
pub mod action;
pub mod buffer;
pub mod cqe;
pub mod driver;
pub mod error;
pub mod executor;
pub mod payload;
pub mod provided;
pub mod socketaddr;
pub mod stream;
pub mod timer;

pub use action::ReadAction;
pub use buffer::{next_pow2, BufRing, BufferHolder, Builder, RingEntry, MAX_RING_ENTRIES};
pub use cqe::{Cqe, CqeResult, CQE_BUFFER_SHIFT, CQE_F_BUFFER, CQE_F_MORE, RESERVED_COOKIE};
pub use driver::{
    check_features, registration_error, wait_outcome, Driver, Handle, Next, OpState, Polled,
    EBUSY, EEXIST, EINTR, EINVAL,
};
pub use error::Error;
pub use executor::{block_on_step, Step, TaskQueue, MAX_TASKS_PER_TICK};
pub use payload::{AcceptMulti, OpKind, Output, Payload, RecvMulti, ECANCELED, ETIME};
pub use provided::{Buffers, GROUP_ID};
pub use socketaddr::{AddressKind, SocketAddr, SUN_PATH_LEN};
pub use stream::{FillStep, ReadCursor};
pub use timer::{reset_timeout, split_nanos, timer_step, TimerStep, NANOS_PER_SEC};

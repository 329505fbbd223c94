//! Linux kernel AIO submission/completion engine.
//!
//! The library keeps the bookkeeping of a kernel AIO context: a fixed pool of
//! request slots linked into a ready list and an outstanding list, the
//! optional capacity semaphore, the control blocks handed to the kernel and the
//! routing of completions back to their waiters, including reclaim of slots
//! whose waiter has been cancelled.
use vstd::prelude::*;

pub mod requests;

pub use requests::atomic_link::{AtomicLink, AtomicLinkOps};

pub mod aio;
pub mod commands;
pub mod context;
pub mod errors;
pub mod eventfd;
pub mod flags;
pub mod wait_future;

pub use errors::{AioCommandError, AioContextError, EventFdError};
pub use flags::{ReadFlags, WriteFlags};
pub use commands::{BufRegion, RawCommand};
pub use context::{AioCore, Completion, Harvest};
pub use requests::{Requests, SlotState};
pub use wait_future::AioWaitFuture;

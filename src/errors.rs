//! Errors of the library. An operating-system error is held as its errno.
use vstd::prelude::*;

verus! {

/// Error of an AIO command.
#[derive(Clone, Copy, Debug, PartialEq, Eq, Structural)]
pub enum AioCommandError {
    /// The context was closed or dropped before the command was submitted.
    AioStopped,
    /// `io_submit` did not accept the control block; the errno it left.
    IoSubmit(i32),
    /// The kernel completed the command with a negative result; its errno.
    BadResult(i32),
    /// A sync completed with a non-zero result.
    NonZeroCode,
    /// The capacity semaphore is off and every slot is in use.
    CapacityExceeded,
}

/// Error of an event file descriptor.
#[derive(Clone, Copy, Debug, PartialEq, Eq, Structural)]
pub enum EventFdError {
    Create(i32),
    Poll(i32),
    Read(i32),
}

/// Error of the creation of an AIO context.
#[derive(Clone, Copy, Debug, PartialEq, Eq, Structural)]
pub enum AioContextError {
    /// The event file descriptor could not be made.
    EventFd(EventFdError),
    /// `io_setup` failed; its errno.
    IoSetup(i32),
}

impl From<EventFdError> for AioContextError {
    fn from(e: EventFdError) -> (r: AioContextError)
        ensures
            r == AioContextError::EventFd(e),
    {
        AioContextError::EventFd(e)
    }
}

impl vstd::std_specs::convert::FromSpecImpl<EventFdError> for AioContextError {
    open spec fn obeys_from_spec() -> bool {
        true
    }

    open spec fn from_spec(e: EventFdError) -> AioContextError {
        AioContextError::EventFd(e)
    }
}

} // verus!

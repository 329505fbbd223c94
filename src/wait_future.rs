//! The wait of one submitted operation, and what happens when it is given up.
use vstd::prelude::*;

use crate::context::{AioCore, completion_result, result_of};
use crate::errors::AioCommandError;
use crate::requests::SlotState;

verus! {

/// The waiting side of an operation that the kernel has accepted. It holds
/// the operation's slot until the result is collected or the wait is
/// cancelled.
pub struct AioWaitFuture {
    request: Option<usize>,
}

impl AioWaitFuture {
    /// The slot held, if the wait is not over.
    pub closed spec fn slot(&self) -> Option<usize> {
        self.request
    }

    /// The future holds a slot of `core` that is in flight or completed.
    pub open spec fn waits_on<T, W>(&self, core: &AioCore<T, W>) -> bool {
        &&& self.slot() is Some
        &&& (self.slot().unwrap() as int) < core.pool().num_slots()
        &&& core.pool().phases[self.slot().unwrap() as int] == SlotState::InFlight
            || core.pool().phases[self.slot().unwrap() as int] is Completed
    }

    pub fn new(request: usize) -> (r: AioWaitFuture)
        ensures
            r.slot() == Some(request),
    {
        AioWaitFuture { request: Some(request) }
    }

    /// Whether the future still waits on a slot of `core`.
    pub fn is_waiting<T, W>(&self, core: &AioCore<T, W>) -> (r: bool)
        requires
            core.wf(),
        ensures
            r == self.waits_on(core),
    {
        match self.request {
            None => false,
            Some(i) => {
                if i >= core.num_slots() {
                    false
                } else {
                    match core.state(i) {
                        SlotState::InFlight => true,
                        SlotState::Completed(_) => true,
                        _ => false,
                    }
                }
            },
        }
    }

    /// Gives the slot back to the ready list; its token is dropped.
    fn return_request_to_pool<T, W>(&mut self, core: &mut AioCore<T, W>)
        requires
            old(core).wf(),
            old(self).waits_on(old(core)),
        ensures
            final(core).wf(),
            final(core).settings_kept(old(core)),
            final(core).pool() == old(core).pool().to_ready(old(self).slot().unwrap()),
            final(core).slot(old(self).slot().unwrap()).token() is None,
            final(self).slot() is None,
    {
        let i = self.request.unwrap();
        self.request = None;
        core.release_slot(i);
    }

    /// Polls the wait. Once the kernel has completed the operation, the slot
    /// goes back to the ready list and the result is returned; until then
    /// nothing changes and `None` is returned.
    pub fn poll<T, W>(&mut self, core: &mut AioCore<T, W>) -> (r: Option<
        Result<u64, AioCommandError>,
    >)
        requires
            old(core).wf(),
            old(self).waits_on(old(core)),
        ensures
            final(core).wf(),
            final(core).settings_kept(old(core)),
            ({
                let i = old(self).slot().unwrap();
                match old(core).pool().phases[i as int] {
                    SlotState::Completed(res) => {
                        &&& r == Some(result_of(res))
                        &&& final(self).slot() is None
                        &&& final(core).pool() == old(core).pool().to_ready(i)
                        &&& final(core).slot(i).token() is None
                    },
                    _ => {
                        &&& r is None
                        &&& final(self).slot() == old(self).slot()
                        &&& final(core).pool() == old(core).pool()
                    },
                }
            }),
    {
        let i = self.request.unwrap();
        match core.state(i) {
            SlotState::Completed(res) => {
                self.return_request_to_pool(core);
                Some(completion_result(res))
            },
            _ => None,
        }
    }

    /// Gives up the wait. A result that has already arrived is dropped and
    /// the slot goes back to the ready list at once (`true`: the capacity semaphore gets
    /// its permit back). An operation still with the kernel moves to the
    /// outstanding list, keeping its buffer token, and the completion loop
    /// reclaims it when the kernel is done (`false`).
    pub fn cancel<T, W>(&mut self, core: &mut AioCore<T, W>) -> (r: bool)
        requires
            old(core).wf(),
            old(self).slot() is None || old(self).waits_on(old(core)),
        ensures
            final(core).wf(),
            final(core).settings_kept(old(core)),
            final(self).slot() is None,
            old(self).slot() is None ==> !r && final(core).pool() == old(core).pool(),
            old(self).slot() matches Some(i) ==> (match old(core).pool().phases[i as int] {
                SlotState::Completed(_) => r && final(core).pool() == old(core).pool().to_ready(i)
                    && final(core).slot(i).token() is None,
                _ => !r && final(core).pool() == old(core).pool().park(i) && final(core).slot(
                    i,
                ).token() == old(core).slot(i).token(),
            }),
    {
        match self.request {
            None => false,
            Some(i) => {
                match core.state(i) {
                    SlotState::Completed(_) => {
                        self.return_request_to_pool(core);
                        true
                    },
                    _ => {
                        self.request = None;
                        core.park_slot(i);
                        false
                    },
                }
            },
        }
    }
}

} // verus!

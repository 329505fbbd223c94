//! The decisions of an AIO context: submission, completion routing, the
//! capacity semaphore and shutdown, over the slot pool.
use vstd::prelude::*;

use crate::aio::{Iocb, IoEvent};
use crate::commands::{RawCommand, command_iocb};
use crate::errors::AioCommandError;
use crate::requests::{
    PoolView, Request, Requests, SlotState, class_of, held_count, kernel_count,
    lemma_count_partition, lemma_count_update,
};
use crate::wait_future::AioWaitFuture;

verus! {

/// What the completion loop does with one completion event.
pub enum Completion<W> {
    /// The waiter is still there: notify it.
    Deliver(W),
    /// The waiter had gone: the slot is back in the ready list, and the
    /// capacity semaphore, when there is one, gets its permit back.
    Reclaimed,
    /// The cookie names no slot that the kernel holds.
    Unknown,
}

/// What `io_getevents` handed back, against what the event file descriptor
/// announced.
#[derive(Clone, Copy, Debug, PartialEq, Eq, Structural)]
pub enum Harvest {
    /// Exactly the announced number of events.
    All,
    /// The call failed; the error is in errno.
    Failed,
    /// Another number of events than announced.
    Mismatch,
}

/// The shared state of a context: the slot pool, whether the capacity semaphore
/// is on, the event file descriptor that completions signal, and whether the
/// context has been closed.
///
/// `T` is the token that keeps a buffer alive while the kernel may touch it;
/// `W` is what notifies the waiter of an operation.
pub struct AioCore<T, W> {
    requests: Requests<T, W>,
    eventfd: i32,
    use_semaphore: bool,
    stopped: bool,
}

/// Why a submission fails before it reaches the kernel, if it does.
pub open spec fn submission_error(pool: PoolView, stopped: bool) -> Option<AioCommandError> {
    if stopped {
        Some(AioCommandError::AioStopped)
    } else if pool.ready.len() == 0 {
        Some(AioCommandError::CapacityExceeded)
    } else {
        None
    }
}

/// The result a waiter gets for the kernel's result `code`.
pub open spec fn result_of(code: i64) -> Result<u64, AioCommandError> {
    if code < 0 {
        Err(AioCommandError::BadResult((-(code as int)) as i32))
    } else {
        Ok(code as u64)
    }
}

/// Turns the kernel's result `code` into what the waiter gets: a byte
/// count, or the errno of a negative result.
pub fn completion_result(code: i64) -> (r: Result<u64, AioCommandError>)
    ensures
        r == result_of(code),
{
    if code < 0 {
        let errno = (-(code as i128)) as i32;
        Err(AioCommandError::BadResult(errno))
    } else {
        Ok(code as u64)
    }
}

/// A sync reports no byte count: any other result than zero is an error.
pub fn sync_result(r: Result<u64, AioCommandError>) -> (s: Result<(), AioCommandError>)
    ensures
        s == match r {
            Ok(0) => Ok(()),
            Ok(_) => Err(AioCommandError::NonZeroCode),
            Err(e) => Err(e),
        },
{
    match r {
        Ok(code) => {
            if code != 0 {
                Err(AioCommandError::NonZeroCode)
            } else {
                Ok(())
            }
        },
        Err(e) => Err(e),
    }
}

/// Checks the count read from the event file descriptor: at least one
/// completion and no more than there are slots.
pub fn check_ready_events(available: u64, num_slots: usize) -> (r: Option<usize>)
    ensures
        r == (if 1 <= available <= num_slots {
            Some(available as usize)
        } else {
            None::<usize>
        }),
{
    if available >= 1 && available <= num_slots as u64 {
        Some(available as usize)
    } else {
        None
    }
}

/// Checks what `io_getevents` returned against the announced count.
pub fn check_harvest(available: usize, received: i64) -> (r: Harvest)
    ensures
        r == (if received < 0 {
            Harvest::Failed
        } else if received == available {
            Harvest::All
        } else {
            Harvest::Mismatch
        }),
{
    if received < 0 {
        Harvest::Failed
    } else if received as i128 == available as i128 {
        Harvest::All
    } else {
        Harvest::Mismatch
    }
}

impl<T, W> AioCore<T, W> {
    pub closed spec fn wf(&self) -> bool {
        self.requests.wf()
    }

    /// The slot pool.
    pub closed spec fn pool(&self) -> PoolView {
        self.requests@
    }

    /// The record of slot `i`.
    pub closed spec fn slot(&self, i: usize) -> Request<T, W> {
        self.requests.slot(i)
    }

    /// Whether the capacity semaphore is on.
    pub closed spec fn uses_semaphore(&self) -> bool {
        self.use_semaphore
    }

    pub closed spec fn stopped(&self) -> bool {
        self.stopped
    }

    pub closed spec fn event_fd(&self) -> i32 {
        self.eventfd
    }

    /// Permits left in the capacity semaphore: one for each free slot. Without one, no count.
    pub open spec fn spec_available(&self) -> Option<nat> {
        if self.uses_semaphore() {
            Some(self.pool().ready.len())
        } else {
            None
        }
    }

    /// Semaphore setting, stop flag and event descriptor are unchanged.
    pub open spec fn settings_kept(&self, other: &Self) -> bool {
        &&& self.uses_semaphore() == other.uses_semaphore()
        &&& self.stopped() == other.stopped()
        &&& self.event_fd() == other.event_fd()
    }

    /// A context with `nr` free slots whose completions signal `eventfd`.
    pub fn new(nr: usize, use_semaphore: bool, eventfd: i32) -> (r: Self)
        ensures
            r.wf(),
            r.pool().phases == Seq::new(nr as nat, |i: int| SlotState::Ready),
            r.pool().ready == Seq::new(nr as nat, |i: int| i as usize),
            r.pool().outstanding == Seq::<usize>::empty(),
            r.uses_semaphore() == use_semaphore,
            !r.stopped(),
            r.event_fd() == eventfd,
    {
        AioCore { requests: Requests::new(nr), eventfd, use_semaphore, stopped: false }
    }

    pub fn num_slots(&self) -> (r: usize)
        requires
            self.wf(),
        ensures
            r == self.pool().num_slots(),
    {
        self.requests.num_slots()
    }

    /// Number of slots left when the capacity semaphore is on, else `None`.
    pub fn available_slots(&self) -> (r: Option<usize>)
        requires
            self.wf(),
        ensures
            r matches Some(n) ==> self.spec_available() == Some(n as nat),
            r is None ==> self.spec_available() is None,
    {
        if self.use_semaphore {
            Some(self.requests.ready_len())
        } else {
            None
        }
    }

    /// State of slot `i`.
    pub fn state(&self, i: usize) -> (r: SlotState)
        requires
            self.wf(),
            (i as int) < self.pool().num_slots(),
        ensures
            r == self.pool().phases[i as int],
    {
        self.requests.state(i)
    }

    /// First half of a submission: takes a free slot for `command` on file
    /// `fd` and fills its control block, which is returned with the slot.
    /// The caller hands the control block to `io_submit` and reports the
    /// outcome to [`AioCore::submit_result`].
    ///
    /// When the capacity semaphore is on, the caller holds a permit; on an error it gives
    /// the permit back, since no slot was used.
    pub fn submit_request(&mut self, fd: i32, command: &RawCommand, token: Option<T>, tx: W) -> (r:
        Result<(usize, Iocb), AioCommandError>)
        requires
            old(self).wf(),
            command.len_fits(),
        ensures
            final(self).wf(),
            final(self).settings_kept(old(self)),
            submission_error(old(self).pool(), old(self).stopped()) matches Some(e) ==> r == Err::<
                (usize, Iocb),
                AioCommandError,
            >(e) && final(self).pool() == old(self).pool(),
            submission_error(old(self).pool(), old(self).stopped()) is None ==> {
                let i = old(self).pool().ready[0];
                &&& r == Ok::<(usize, Iocb), AioCommandError>(
                    (i, command_iocb(*command, fd, old(self).event_fd(), i as u64)),
                )
                &&& final(self).pool() == old(self).pool().take_front()
                &&& final(self).slot(i).waiter() == Some(tx)
                &&& final(self).slot(i).token() == token
                &&& final(self).slot(i).control_block() == command_iocb(
                    *command,
                    fd,
                    old(self).event_fd(),
                    i as u64,
                )
            },
    {
        if self.stopped {
            return Err(AioCommandError::AioStopped);
        }
        match self.requests.take() {
            None => Err(AioCommandError::CapacityExceeded),
            Some(i) => {
                let iocb = self.requests.set_payload(i, self.eventfd, fd, command, tx, token);
                Ok((i, iocb))
            },
        }
    }

    /// Second half of a submission: `submitted` is what `io_submit` returned
    /// for the control block of slot `i`, and `errno` the error it left.
    /// One accepted block makes the operation in flight, to be awaited
    /// through the returned future. Otherwise the slot goes back to the
    /// ready list, its token is dropped, and the caller gives back its
    /// permit.
    pub fn submit_result(&mut self, i: usize, submitted: i64, errno: i32) -> (r: Result<
        AioWaitFuture,
        AioCommandError,
    >)
        requires
            old(self).wf(),
            (i as int) < old(self).pool().num_slots(),
            old(self).pool().phases[i as int] == SlotState::Taken,
            old(self).slot(i).waiter() is Some,
        ensures
            final(self).wf(),
            final(self).settings_kept(old(self)),
            submitted == 1 ==> (r matches Ok(f) && f.slot() == Some(i)),
            submitted == 1 ==> final(self).pool() == old(self).pool().set_phase(
                i,
                SlotState::InFlight,
            ),
            submitted == 1 ==> final(self).slot(i).token() == old(self).slot(i).token(),
            submitted == 1 ==> final(self).slot(i).waiter() == old(self).slot(i).waiter(),
            submitted == 1 ==> final(self).slot(i).control_block() == old(
                self,
            ).slot(i).control_block(),
            submitted != 1 ==> r == Err::<AioWaitFuture, AioCommandError>(
                AioCommandError::IoSubmit(errno),
            ),
            submitted != 1 ==> final(self).pool() == old(self).pool().to_ready(i),
            submitted != 1 ==> final(self).slot(i).token() is None,
    {
        if submitted == 1 {
            self.requests.mark_submitted(i);
            Ok(AioWaitFuture::new(i))
        } else {
            self.requests.return_in_flight_to_ready(i);
            Err(AioCommandError::IoSubmit(errno))
        }
    }

    /// Routes one completion event. The cookie is the index of the slot.
    /// A slot in flight records the result and its waiter is handed back
    /// to be notified; an outstanding slot, whose waiter has gone, goes
    /// back to the ready list with its token dropped. Any other cookie is
    /// reported as unknown and nothing changes.
    pub fn complete(&mut self, event: &IoEvent) -> (r: Completion<W>)
        requires
            old(self).wf(),
        ensures
            final(self).wf(),
            final(self).settings_kept(old(self)),
            ({
                let n = old(self).pool().num_slots();
                let i = event.data as usize;
                if event.data < n && old(self).pool().phases[i as int] == SlotState::InFlight {
                    &&& (r matches Completion::Deliver(w) && old(self).slot(i).waiter() == Some(w))
                    &&& final(self).pool() == old(self).pool().set_phase(
                        i,
                        SlotState::Completed(event.res),
                    )
                } else if event.data < n && old(self).pool().phases[i as int]
                    == SlotState::Outstanding {
                    &&& r is Reclaimed
                    &&& final(self).pool() == old(self).pool().unpark(i)
                    &&& final(self).slot(i).token() is None
                } else {
                    &&& r is Unknown
                    &&& final(self).pool() == old(self).pool()
                }
            }),
    {
        let n = self.requests.num_slots();
        if event.data >= n as u64 {
            return Completion::Unknown;
        }
        let i = event.data as usize;
        match self.requests.state(i) {
            SlotState::InFlight => {
                let w = self.requests.send_to_waiter(i, event.res);
                Completion::Deliver(w)
            },
            SlotState::Outstanding => {
                self.requests.return_outstanding_to_ready(i);
                Completion::Reclaimed
            },
            _ => Completion::Unknown,
        }
    }

    /// Closes the context: every later submission fails with `AioStopped`.
    /// Tells whether the context was still open.
    pub fn close(&mut self) -> (r: bool)
        requires
            old(self).wf(),
        ensures
            final(self).wf(),
            r == !old(self).stopped(),
            final(self).stopped(),
            final(self).uses_semaphore() == old(self).uses_semaphore(),
            final(self).event_fd() == old(self).event_fd(),
            final(self).pool() == old(self).pool(),
    {
        let was_open = !self.stopped;
        self.stopped = true;
        was_open
    }

    /// Whether no operation holds a slot: every slot is free or waits for
    /// the kernel with nobody waiting on it.
    pub fn is_quiescent(&self) -> (r: bool)
        requires
            self.wf(),
        ensures
            r == (held_count(self.pool().phases) == 0),
    {
        proof {
            self.requests.lemma_slot_conservation();
        }
        let ready = self.requests.ready_len();
        let outstanding = self.requests.outstanding_len();
        let n = self.requests.num_slots();
        ready as u128 + outstanding as u128 == n as u128
    }

    /// Slot `i`, held by a live operation, goes back to the ready list.
    pub(crate) fn release_slot(&mut self, i: usize)
        requires
            old(self).wf(),
            (i as int) < old(self).pool().num_slots(),
            class_of(old(self).pool().phases[i as int]) == 1 || class_of(
                old(self).pool().phases[i as int],
            ) == 2,
        ensures
            final(self).wf(),
            final(self).settings_kept(old(self)),
            final(self).pool() == old(self).pool().to_ready(i),
            final(self).slot(i).token() is None,
    {
        self.requests.return_in_flight_to_ready(i);
    }

    /// Slot `i`, in flight, is left by its waiter.
    pub(crate) fn park_slot(&mut self, i: usize)
        requires
            old(self).wf(),
            (i as int) < old(self).pool().num_slots(),
            old(self).pool().phases[i as int] == SlotState::InFlight,
        ensures
            final(self).wf(),
            final(self).settings_kept(old(self)),
            final(self).pool() == old(self).pool().park(i),
            final(self).slot(i).token() == old(self).slot(i).token(),
    {
        self.requests.move_to_outstanding(i);
    }

    /// Every slot is in exactly one place: the ready list, the hands of a
    /// live operation, or the outstanding list; the three together count
    /// the slots of the context. A free slot holds no buffer token and no
    /// waiter; a slot in flight has its waiter.
    pub proof fn lemma_slot_conservation(&self)
        requires
            self.wf(),
        ensures
            self.pool().ready.len() + held_count(self.pool().phases) + self.pool().outstanding.len()
                == self.pool().num_slots(),
            forall|i: usize|
                (i as int) < self.pool().num_slots() ==> (#[trigger] self.pool().ready.contains(i)
                    <==> self.pool().phases[i as int] == SlotState::Ready),
            forall|i: usize|
                (i as int) < self.pool().num_slots() ==> (
                #[trigger] self.pool().outstanding.contains(i) <==> self.pool().phases[i as int]
                    == SlotState::Outstanding),
            self.pool().ready.no_duplicates(),
            self.pool().outstanding.no_duplicates(),
            forall|i: usize|
                (i as int) < self.pool().num_slots() && self.pool().phases[i as int]
                    == SlotState::Ready ==> (#[trigger] self.slot(i)).token() is None && self.slot(
                    i,
                ).waiter() is None,
            forall|i: usize|
                (i as int) < self.pool().num_slots() && self.pool().phases[i as int]
                    == SlotState::InFlight ==> (#[trigger] self.slot(i)).waiter() is Some,
    {
        self.requests.lemma_slot_conservation();
    }

    /// A wait given up while the kernel still holds its operation costs no
    /// slot for good: once the completion arrives, the slot is free again
    /// and the outstanding list is as it was; if no other operation held a
    /// slot, the capacity semaphore has all its permits back.
    pub proof fn lemma_cancel_reclaims(c0: &Self, c1: &Self, c2: &Self, i: usize)
        requires
            c0.wf(),
            c1.wf(),
            c2.wf(),
            (i as int) < c0.pool().num_slots(),
            c0.pool().phases[i as int] == SlotState::InFlight,
            c1.pool() == c0.pool().park(i),
            c2.pool() == c1.pool().unpark(i),
            c2.uses_semaphore() == c0.uses_semaphore(),
        ensures
            c2.pool().phases == c0.pool().phases.update(i as int, SlotState::Ready),
            c2.pool().ready.len() == c0.pool().ready.len() + 1,
            c2.pool().outstanding == c0.pool().outstanding,
            c0.uses_semaphore() && held_count(c0.pool().phases) == 1 && c0.pool().outstanding.len() == 0
                ==> c2.spec_available() == Some(c0.pool().num_slots()),
    {
        let p0 = c0.pool();
        let o1 = p0.outstanding.push(i);
        c0.requests.lemma_slot_conservation();
        c1.requests.lemma_slot_conservation();
        assert(c2.pool().phases =~= p0.phases.update(i as int, SlotState::Ready));
        let k = o1.index_of(i);
        assert(o1.contains(i)) by {
            assert(o1[p0.outstanding.len() as int] == i);
        }
        assert(k == p0.outstanding.len()) by {
            assert(o1[p0.outstanding.len() as int] == i);
        }
        assert(o1.remove(k) =~= p0.outstanding);
        c2.requests.lemma_slot_conservation();
        lemma_count_update(p0.phases, i as int, SlotState::Ready, 1);
        lemma_count_update(p0.phases, i as int, SlotState::Ready, 2);
    }

    /// Once closed, a context refuses every submission with `AioStopped`.
    pub proof fn lemma_close_refuses(&self)
        requires
            self.stopped(),
        ensures
            submission_error(self.pool(), self.stopped()) == Some(AioCommandError::AioStopped),
    {
    }

    /// With the capacity semaphore on and no operation holding or waiting on a slot, the
    /// capacity semaphore has all its permits back.
    pub proof fn lemma_permits_restored(&self)
        requires
            self.wf(),
            self.uses_semaphore(),
            held_count(self.pool().phases) == 0,
            self.pool().outstanding.len() == 0,
        ensures
            self.spec_available() == Some(self.pool().num_slots()),
    {
        self.requests.lemma_slot_conservation();
    }

    /// No more control blocks are with the kernel than there are slots.
    pub proof fn lemma_bounded_concurrency(&self)
        requires
            self.wf(),
        ensures
            kernel_count(self.pool().phases) <= self.pool().num_slots(),
    {
        self.requests.lemma_slot_conservation();
        lemma_count_partition(self.pool().phases);
    }
}

} // verus!

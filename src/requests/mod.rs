//! The slot pool: a fixed set of request slots, each in exactly one of the
//! ready list, the hands of a live operation, or the outstanding list.
use vstd::prelude::*;

use crate::aio::{Iocb, zeroed_iocb};
use crate::commands::{RawCommand, build_iocb, command_iocb};

use self::atomic_link::AtomicLink;
use self::slot_list::SlotList;

pub mod atomic_link;
pub mod slot_list;

verus! {

/// Where a slot stands.
#[derive(Clone, Copy, Debug, PartialEq, Eq, Structural)]
pub enum SlotState {
    /// In the ready list, free for a submission.
    Ready,
    /// Taken by a submitter; the kernel has not accepted it.
    Taken,
    /// Accepted by the kernel; its waiter is still there.
    InFlight,
    /// Completed by the kernel with this result; its waiter has not
    /// collected it yet.
    Completed(i64),
    /// Accepted by the kernel, but its waiter has gone away: in the
    /// outstanding list until the completion arrives.
    Outstanding,
}

/// Sorts the states into four classes: 0 free, 1 with the caller only
/// (taken or completed), 2 with the kernel and a waiter, 3 with the kernel
/// and no waiter.
pub open spec fn class_of(s: SlotState) -> int {
    match s {
        SlotState::Ready => 0,
        SlotState::Taken => 1,
        SlotState::Completed(_) => 1,
        SlotState::InFlight => 2,
        SlotState::Outstanding => 3,
    }
}

/// Number of entries of `ph` of class `c`.
pub open spec fn count_class(ph: Seq<SlotState>, c: int) -> nat
    decreases ph.len(),
{
    if ph.len() == 0 {
        0
    } else {
        count_class(ph.drop_last(), c) + if class_of(ph.last()) == c {
            1nat
        } else {
            0nat
        }
    }
}

/// Slots held by live operations: taken, in flight or completed.
pub open spec fn held_count(ph: Seq<SlotState>) -> nat {
    count_class(ph, 1) + count_class(ph, 2)
}

/// Slots whose control block the kernel holds: in flight or outstanding.
pub open spec fn kernel_count(ph: Seq<SlotState>) -> nat {
    count_class(ph, 2) + count_class(ph, 3)
}

pub proof fn lemma_count_bound(ph: Seq<SlotState>, c: int)
    ensures
        count_class(ph, c) <= ph.len(),
    decreases ph.len(),
{
    if ph.len() > 0 {
        lemma_count_bound(ph.drop_last(), c);
    }
}

/// The four classes together count every slot.
pub proof fn lemma_count_partition(ph: Seq<SlotState>)
    ensures
        count_class(ph, 0) + count_class(ph, 1) + count_class(ph, 2) + count_class(ph, 3)
            == ph.len(),
    decreases ph.len(),
{
    if ph.len() > 0 {
        lemma_count_partition(ph.drop_last());
    }
}

/// Changing one entry moves one unit between the classes of the old and
/// the new state.
pub proof fn lemma_count_update(ph: Seq<SlotState>, i: int, s: SlotState, c: int)
    requires
        0 <= i < ph.len(),
    ensures
        count_class(ph.update(i, s), c) + (if class_of(ph[i]) == c {
            1int
        } else {
            0int
        }) == count_class(ph, c) + (if class_of(s) == c {
            1int
        } else {
            0int
        }),
    decreases ph.len(),
{
    let ph2 = ph.update(i, s);
    if i == ph.len() - 1 {
        assert(ph2.drop_last() =~= ph.drop_last());
    } else {
        assert(ph2.drop_last() =~= ph.drop_last().update(i, s));
        lemma_count_update(ph.drop_last(), i, s, c);
    }
}

/// In a sequence of free slots, every slot is free.
pub proof fn lemma_count_all_ready(ph: Seq<SlotState>)
    requires
        forall|i: int| 0 <= i < ph.len() ==> ph[i] == SlotState::Ready,
    ensures
        count_class(ph, 0) == ph.len(),
    decreases ph.len(),
{
    if ph.len() > 0 {
        lemma_count_all_ready(ph.drop_last());
    }
}

/// The pool as a mathematical value.
pub struct PoolView {
    /// The state of each slot.
    pub phases: Seq<SlotState>,
    /// The ready list, front first.
    pub ready: Seq<usize>,
    /// The outstanding list, front first.
    pub outstanding: Seq<usize>,
}

impl PoolView {
    pub open spec fn num_slots(self) -> nat {
        self.phases.len()
    }

    /// The front of the ready list is taken by a submitter.
    pub open spec fn take_front(self) -> PoolView {
        PoolView {
            phases: self.phases.update(self.ready[0] as int, SlotState::Taken),
            ready: self.ready.drop_first(),
            outstanding: self.outstanding,
        }
    }

    /// Slot `i` changes state without changing list.
    pub open spec fn set_phase(self, i: usize, s: SlotState) -> PoolView {
        PoolView { phases: self.phases.update(i as int, s), ..self }
    }

    /// Slot `i`, held by an operation, goes back to the ready list.
    pub open spec fn to_ready(self, i: usize) -> PoolView {
        PoolView {
            phases: self.phases.update(i as int, SlotState::Ready),
            ready: self.ready.push(i),
            outstanding: self.outstanding,
        }
    }

    /// Slot `i`, whose waiter has gone, joins the outstanding list.
    pub open spec fn park(self, i: usize) -> PoolView {
        PoolView {
            phases: self.phases.update(i as int, SlotState::Outstanding),
            ready: self.ready,
            outstanding: self.outstanding.push(i),
        }
    }

    /// Slot `i` leaves the outstanding list for the ready list.
    pub open spec fn unpark(self, i: usize) -> PoolView {
        PoolView {
            phases: self.phases.update(i as int, SlotState::Ready),
            ready: self.ready.push(i),
            outstanding: self.outstanding.remove(self.outstanding.index_of(i)),
        }
    }
}

/// One slot: its state, the control block handed to the kernel, the waiter
/// to notify on completion and the token that keeps the buffer alive.
pub struct Request<T, W> {
    state: SlotState,
    aio_req: Iocb,
    completed_tx: Option<W>,
    buf_lifetime_extender: Option<T>,
}

impl<T, W> Request<T, W> {
    pub fn new() -> (r: Request<T, W>)
        ensures
            r.state() == SlotState::Ready,
            r.control_block() == zeroed_iocb(),
            r.waiter() is None,
            r.token() is None,
            r == Self::new_spec(),
    {
        Request {
            state: SlotState::Ready,
            aio_req: Iocb::zeroed(),
            completed_tx: None,
            buf_lifetime_extender: None,
        }
    }

    pub closed spec fn state(&self) -> SlotState {
        self.state
    }

    pub closed spec fn control_block(&self) -> Iocb {
        self.aio_req
    }

    pub closed spec fn waiter(&self) -> Option<W> {
        self.completed_tx
    }

    pub closed spec fn token(&self) -> Option<T> {
        self.buf_lifetime_extender
    }
}

/// The slot pool of a context with a fixed number of slots.
pub struct Requests<T, W> {
    slots: Vec<Request<T, W>>,
    links: Vec<AtomicLink>,
    ready_pool: SlotList,
    outstanding: SlotList,
}

impl<T, W> View for Requests<T, W> {
    type V = PoolView;

    closed spec fn view(&self) -> PoolView {
        PoolView {
            phases: Seq::new(self.slots@.len(), |i: int| self.slots@[i].state),
            ready: self.ready_pool.items(),
            outstanding: self.outstanding.items(),
        }
    }
}

impl<T, W> Requests<T, W> {
    /// What slot `i` holds besides its state.
    pub closed spec fn slot(&self, i: usize) -> Request<T, W> {
        self.slots@[i as int]
    }

    pub closed spec fn slot_ok(&self, i: int) -> bool {
        let r = self.slots@[i];
        let st = r.state;
        &&& (self.ready_pool.items().contains(i as usize) <==> st is Ready)
        &&& (self.outstanding.items().contains(i as usize) <==> st is Outstanding)
        &&& (!(st is Ready || st is Outstanding) ==> !self.links@[i].locked)
        &&& (st is Ready ==> r.buf_lifetime_extender is None && r.completed_tx is None)
        &&& (st is InFlight ==> r.completed_tx is Some)
        &&& (st is Completed || st is Outstanding ==> r.completed_tx is None)
    }

    /// The pool's invariant.
    pub closed spec fn wf(&self) -> bool {
        let ph = self@.phases;
        &&& self.slots@.len() <= usize::MAX
        &&& self.slots@.len() == self.links@.len()
        &&& self.ready_pool.wf(self.links@)
        &&& self.outstanding.wf(self.links@)
        &&& self.ready_pool.items().len() == count_class(ph, 0)
        &&& self.outstanding.items().len() == count_class(ph, 3)
        &&& forall|x: usize| #[trigger]
            self.ready_pool.items().contains(x) ==> (x as int) < self.slots@.len()
        &&& forall|x: usize| #[trigger]
            self.outstanding.items().contains(x) ==> (x as int) < self.slots@.len()
        &&& forall|i: int| 0 <= i < self.slots@.len() ==> #[trigger] self.slot_ok(i)
    }

    /// Payloads of all slots other than `i` are the same in both pools.
    pub open spec fn others_kept(&self, other: &Self, i: usize) -> bool {
        forall|j: usize|
            j != i && (j as int) < self@.num_slots() ==> #[trigger] self.slot(j) == other.slot(j)
    }

    /// The slots other than `i` keep their records, their list membership
    /// and, where they are in no list, their links: then they stay in order.
    proof fn lemma_others_ok(old_r: &Self, new_r: &Self, i: usize)
        requires
            old_r.wf(),
            new_r.slots@.len() == old_r.slots@.len(),
            new_r.links@.len() == old_r.links@.len(),
            forall|j: usize|
                (j as int) < old_r.slots@.len() && j != i ==> #[trigger] new_r.slots@[j as int]
                    == old_r.slots@[j as int],
            forall|j: usize|
                j != i ==> (#[trigger] new_r.ready_pool.items().contains(j)
                    <==> old_r.ready_pool.items().contains(j)),
            forall|j: usize|
                j != i ==> (#[trigger] new_r.outstanding.items().contains(j)
                    <==> old_r.outstanding.items().contains(j)),
            forall|j: usize|
                (j as int) < old_r.links@.len() && j != i && !old_r.ready_pool.items().contains(j)
                    && !old_r.outstanding.items().contains(j) ==> #[trigger] new_r.links@[j as int]
                    == old_r.links@[j as int],
        ensures
            forall|j: usize|
                (j as int) < new_r.slots@.len() && j != i ==> #[trigger] new_r.slot_ok(j as int),
    {
        assert forall|j: usize| (j as int) < new_r.slots@.len() && j != i implies #[trigger] new_r.slot_ok(
            j as int,
        ) by {
            assert(old_r.slot_ok(j as int));
            assert(new_r.slots@[j as int] == old_r.slots@[j as int]);
            assert(new_r.ready_pool.items().contains(j) <==> old_r.ready_pool.items().contains(j));
            assert(new_r.outstanding.items().contains(j)
                <==> old_r.outstanding.items().contains(j));
            if !old_r.ready_pool.items().contains(j) && !old_r.outstanding.items().contains(j) {
                assert(new_r.links@[j as int] == old_r.links@[j as int]);
            }
        }
    }

    /// Every slot satisfies its part of the invariant once all but `i` do
    /// and `i` does.
    proof fn lemma_all_ok(&self, i: usize)
        requires
            (i as int) < self.slots@.len(),
            self.slots@.len() <= usize::MAX,
            self.slot_ok(i as int),
            forall|j: usize|
                (j as int) < self.slots@.len() && j != i ==> #[trigger] self.slot_ok(j as int),
        ensures
            forall|j: int| 0 <= j < self.slots@.len() ==> #[trigger] self.slot_ok(j),
    {
        assert forall|j: int| 0 <= j < self.slots@.len() implies #[trigger] self.slot_ok(j) by {
            if j != i as int {
                assert(self.slot_ok((j as usize) as int));
            }
        }
    }

    /// Payload of slot `i` (its control block, waiter and token) is unchanged.
    pub open spec fn payload_kept(&self, other: &Self, i: usize) -> bool {
        &&& self.slot(i).control_block() == other.slot(i).control_block()
        &&& self.slot(i).waiter() == other.slot(i).waiter()
        &&& self.slot(i).token() == other.slot(i).token()
    }

    /// Takes the front of the ready list for a submission.
    pub fn take(&mut self) -> (r: Option<usize>)
        requires
            old(self).wf(),
        ensures
            final(self).wf(),
            old(self)@.ready.len() == 0 ==> r is None && final(self)@ == old(self)@,
            old(self)@.ready.len() > 0 ==> r == Some(old(self)@.ready[0]) && final(self)@ == old(
                self,
            )@.take_front(),
            r matches Some(i) ==> final(self).others_kept(old(self), i),
            r matches Some(i) ==> (i as int) < old(self)@.num_slots(),
            forall|j: usize|
                (j as int) < old(self)@.num_slots() ==> #[trigger] final(self).payload_kept(
                    old(self),
                    j,
                ),
    {
        let ghost old_r = *self;
        let r = self.ready_pool.pop_front(&mut self.links);
        match r {
            None => {
                proof {
                    assert(self@ =~= old_r@);
                    assert forall|j: int| 0 <= j < self.slots@.len() implies #[trigger] self.slot_ok(j) by {
                        assert(old_r.slot_ok(j));
                    }
                }
                None
            },
            Some(i) => {
                proof {
                    old_r.ready_pool.lemma_unique(old_r.links@);
                    assert(old_r.ready_pool.items().contains(i));
                    assert(old_r.slot_ok(i as int));
                }
                self.slots[i].state = SlotState::Taken;
                proof {
                    let ph0 = old_r@.phases;
                    let s0 = old_r.ready_pool.items();
                    assert(self@.phases =~= ph0.update(i as int, SlotState::Taken));
                    lemma_count_update(ph0, i as int, SlotState::Taken, 0);
                    lemma_count_update(ph0, i as int, SlotState::Taken, 3);
                    assert forall|j: int|
                        0 <= j < old_r.links@.len() && old_r.outstanding.items().contains(
                            j as usize,
                        ) implies #[trigger] self.links@[j] == old_r.links@[j] by {
                        assert(old_r.slot_ok(j));
                    }
                    old_r.outstanding.lemma_frame(old_r.links@, self.links@);
                    assert forall|j: usize|
                        j != i implies (#[trigger] self.ready_pool.items().contains(j)
                        <==> old_r.ready_pool.items().contains(j)) by {
                        if s0.contains(j) {
                            let k = choose|k: int| 0 <= k < s0.len() && s0[k] == j;
                            assert(s0.drop_first()[k - 1] == j);
                        }
                    }
                    Self::lemma_others_ok(&old_r, self, i);
                    assert(!self.ready_pool.items().contains(i)) by {
                        if s0.drop_first().contains(i) {
                            let k = choose|k: int|
                                0 <= k < s0.drop_first().len() && s0.drop_first()[k] == i;
                            assert(s0[k + 1] == s0[0]);
                        }
                    }
                    assert(self.slot_ok(i as int));
                    self.lemma_all_ok(i);
                    assert(self@ =~= old_r@.take_front());
                    assert(self.slots@.len() == self.links@.len());
                    assert(self.ready_pool.wf(self.links@));
                    assert(self.outstanding.wf(self.links@));
                    assert(self.ready_pool.items().len() == count_class(self@.phases, 0));
                    assert(self.outstanding.items().len() == count_class(self@.phases, 3));
                    assert(forall|x: usize| #[trigger]
                        self.ready_pool.items().contains(x) ==> (x as int) < self.slots@.len());
                    assert(forall|x: usize| #[trigger]
                        self.outstanding.items().contains(x) ==> (x as int) < self.slots@.len());
                }
                Some(i)
            },
        }
    }

    /// A pool with `nr` free slots, in index order.
    pub fn new(nr: usize) -> (r: Self)
        ensures
            r.wf(),
            r@.phases == Seq::new(nr as nat, |i: int| SlotState::Ready),
            r@.ready == Seq::new(nr as nat, |i: int| i as usize),
            r@.outstanding == Seq::<usize>::empty(),
            forall|i: usize| (i as int) < nr ==> #[trigger] r.slot(i) == Request::<T, W>::new_spec(),
    {
        let mut slots: Vec<Request<T, W>> = Vec::new();
        let mut links: Vec<AtomicLink> = Vec::new();
        let mut ready_pool = SlotList::new();
        let outstanding = SlotList::new();
        let mut i: usize = 0;
        while i < nr
            invariant
                i <= nr,
                slots@.len() == i,
                links@.len() == i,
                ready_pool.wf(links@),
                outstanding.items() == Seq::<usize>::empty(),
                forall|l: Seq<AtomicLink>| outstanding.wf(l),
                ready_pool.items() == Seq::new(i as nat, |k: int| k as usize),
                forall|k: int| 0 <= k < i ==> #[trigger] slots@[k] == Request::<T, W>::new_spec(),
            decreases nr - i,
        {
            let ghost l0 = links@;
            slots.push(Request::new());
            links.push(AtomicLink::new());
            proof {
                ready_pool.lemma_frame(l0, links@);
            }
            ready_pool.push_back(&mut links, i);
            proof {
                assert(ready_pool.items() =~= Seq::new((i + 1) as nat, |k: int| k as usize));
            }
            i = i + 1;
        }
        let r = Requests { slots, links, ready_pool, outstanding };
        proof {
            let ph = r@.phases;
            assert(ph =~= Seq::new(nr as nat, |i: int| SlotState::Ready));
            lemma_count_all_ready(ph);
            assert(count_class(ph, 3) == 0) by {
                lemma_count_partition(ph);
            }
            assert forall|x: usize| #[trigger] r.ready_pool.items().contains(x) implies (x as int)
                < r.slots@.len() by {
                let k = choose|k: int| 0 <= k < nr && r.ready_pool.items()[k] == x;
            }
            assert forall|i: int| 0 <= i < r.slots@.len() implies #[trigger] r.slot_ok(i) by {
                assert(r.ready_pool.items()[i] == i as usize);
            }
        }
        r
    }

    /// Slot `i`, held by an operation, goes back to the ready list; its
    /// waiter and its buffer token are dropped.
    pub fn return_in_flight_to_ready(&mut self, i: usize)
        requires
            old(self).wf(),
            (i as int) < old(self)@.num_slots(),
            class_of(old(self)@.phases[i as int]) == 1 || class_of(old(self)@.phases[i as int]) == 2,
        ensures
            final(self).wf(),
            final(self)@ == old(self)@.to_ready(i),
            final(self).others_kept(old(self), i),
            final(self).slot(i).control_block() == old(self).slot(i).control_block(),
            final(self).slot(i).waiter() is None,
            final(self).slot(i).token() is None,
    {
        let ghost old_r = *self;
        let ghost ph0 = old_r@.phases;
        proof {
            assert(old_r.slot_ok(i as int));
            lemma_count_update(ph0, i as int, SlotState::Ready, 0);
            lemma_count_update(ph0, i as int, SlotState::Ready, 3);
            lemma_count_bound(ph0.update(i as int, SlotState::Ready), 0);
        }
        self.slots[i].buf_lifetime_extender = None;
        self.slots[i].completed_tx = None;
        self.slots[i].state = SlotState::Ready;
        let ghost l1 = self.links@;
        self.ready_pool.push_back(&mut self.links, i);
        proof {
            let s0 = old_r.ready_pool.items();
            assert(self@.phases =~= ph0.update(i as int, SlotState::Ready));
            assert forall|j: int|
                0 <= j < l1.len() && old_r.outstanding.items().contains(
                    j as usize,
                ) implies #[trigger] self.links@[j] == l1[j] by {
                assert(old_r.slot_ok(j));
            }
            old_r.outstanding.lemma_frame(l1, self.links@);
            assert forall|j: usize|
                j != i implies (#[trigger] self.ready_pool.items().contains(j)
                <==> old_r.ready_pool.items().contains(j)) by {
                if s0.contains(j) {
                    let k = choose|k: int| 0 <= k < s0.len() && s0[k] == j;
                    assert(s0.push(i)[k] == j);
                }
                if s0.push(i).contains(j) {
                    let k = choose|k: int| 0 <= k < s0.push(i).len() && s0.push(i)[k] == j;
                    assert(s0[k] == j);
                }
            }
            assert forall|x: usize| #[trigger]
                self.ready_pool.items().contains(x) implies (x as int) < self.slots@.len() by {
                if x != i {
                    assert(old_r.ready_pool.items().contains(x));
                }
            }
            Self::lemma_others_ok(&old_r, self, i);
            assert(self.ready_pool.items()[s0.len() as int] == i);
            assert(self.slot_ok(i as int));
            self.lemma_all_ok(i);
            assert(self@ =~= old_r@.to_ready(i));
        }
    }

    /// Slot `i`, in flight, is left by its waiter: it joins the outstanding
    /// list, keeps its buffer token, and its waiter is dropped.
    pub fn move_to_outstanding(&mut self, i: usize)
        requires
            old(self).wf(),
            (i as int) < old(self)@.num_slots(),
            old(self)@.phases[i as int] == SlotState::InFlight,
        ensures
            final(self).wf(),
            final(self)@ == old(self)@.park(i),
            final(self).others_kept(old(self), i),
            final(self).slot(i).control_block() == old(self).slot(i).control_block(),
            final(self).slot(i).waiter() is None,
            final(self).slot(i).token() == old(self).slot(i).token(),
    {
        let ghost old_r = *self;
        let ghost ph0 = old_r@.phases;
        proof {
            assert(old_r.slot_ok(i as int));
            lemma_count_update(ph0, i as int, SlotState::Outstanding, 0);
            lemma_count_update(ph0, i as int, SlotState::Outstanding, 3);
            lemma_count_bound(ph0.update(i as int, SlotState::Outstanding), 3);
        }
        self.slots[i].completed_tx = None;
        self.slots[i].state = SlotState::Outstanding;
        let ghost l1 = self.links@;
        self.outstanding.push_back(&mut self.links, i);
        proof {
            let s0 = old_r.outstanding.items();
            assert(self@.phases =~= ph0.update(i as int, SlotState::Outstanding));
            assert forall|j: int|
                0 <= j < l1.len() && old_r.ready_pool.items().contains(
                    j as usize,
                ) implies #[trigger] self.links@[j] == l1[j] by {
                assert(old_r.slot_ok(j));
            }
            old_r.ready_pool.lemma_frame(l1, self.links@);
            assert forall|j: usize|
                j != i implies (#[trigger] self.outstanding.items().contains(j)
                <==> old_r.outstanding.items().contains(j)) by {
                if s0.contains(j) {
                    let k = choose|k: int| 0 <= k < s0.len() && s0[k] == j;
                    assert(s0.push(i)[k] == j);
                }
                if s0.push(i).contains(j) {
                    let k = choose|k: int| 0 <= k < s0.push(i).len() && s0.push(i)[k] == j;
                    assert(s0[k] == j);
                }
            }
            assert forall|x: usize| #[trigger]
                self.outstanding.items().contains(x) implies (x as int) < self.slots@.len() by {
                if x != i {
                    assert(old_r.outstanding.items().contains(x));
                }
            }
            Self::lemma_others_ok(&old_r, self, i);
            assert(self.outstanding.items()[s0.len() as int] == i);
            assert(self.slot_ok(i as int));
            self.lemma_all_ok(i);
            assert(self@ =~= old_r@.park(i));
        }
    }

    /// Slot `i`, outstanding, has completed: it leaves the outstanding list
    /// for the ready list and its buffer token is dropped.
    pub fn return_outstanding_to_ready(&mut self, i: usize)
        requires
            old(self).wf(),
            (i as int) < old(self)@.num_slots(),
            old(self)@.phases[i as int] == SlotState::Outstanding,
        ensures
            final(self).wf(),
            final(self)@ == old(self)@.unpark(i),
            final(self).others_kept(old(self), i),
            final(self).slot(i).control_block() == old(self).slot(i).control_block(),
            final(self).slot(i).waiter() is None,
            final(self).slot(i).token() is None,
    {
        let ghost old_r = *self;
        let ghost ph0 = old_r@.phases;
        proof {
            assert(old_r.slot_ok(i as int));
            lemma_count_update(ph0, i as int, SlotState::Ready, 0);
            lemma_count_update(ph0, i as int, SlotState::Ready, 3);
            lemma_count_bound(ph0.update(i as int, SlotState::Ready), 0);
        }
        self.outstanding.remove(&mut self.links, i);
        let ghost l1 = self.links@;
        proof {
            assert forall|j: int|
                0 <= j < old_r.links@.len() && old_r.ready_pool.items().contains(
                    j as usize,
                ) implies #[trigger] l1[j] == old_r.links@[j] by {
                assert(old_r.slot_ok(j));
            }
            old_r.ready_pool.lemma_frame(old_r.links@, l1);
        }
        self.slots[i].buf_lifetime_extender = None;
        self.slots[i].state = SlotState::Ready;
        let ghost mid_out = self.outstanding.items();
        self.ready_pool.push_back(&mut self.links, i);
        proof {
            let s0 = old_r.ready_pool.items();
            let o0 = old_r.outstanding.items();
            let k = o0.index_of(i);
            o0.remove_ensures(k);
            assert(self@.phases =~= ph0.update(i as int, SlotState::Ready));
            assert forall|j: usize|
                j != i implies (#[trigger] self.outstanding.items().contains(j)
                <==> old_r.outstanding.items().contains(j)) by {
                if o0.contains(j) {
                    let m = choose|m: int| 0 <= m < o0.len() && o0[m] == j;
                    if m < k {
                        assert(mid_out[m] == j);
                    } else {
                        assert(m != k);
                        assert(mid_out[m - 1] == j);
                    }
                }
                if mid_out.contains(j) {
                    let m = choose|m: int| 0 <= m < mid_out.len() && mid_out[m] == j;
                    if m < k {
                        assert(o0[m] == j);
                    } else {
                        assert(o0[m + 1] == j);
                    }
                }
            }
            assert forall|j: int|
                0 <= j < l1.len() && self.outstanding.items().contains(
                    j as usize,
                ) implies #[trigger] self.links@[j] == l1[j] by {
                assert(old_r.outstanding.items().contains(j as usize));
                assert(old_r.slot_ok(j));
            }
            self.outstanding.lemma_frame(l1, self.links@);
            assert forall|j: usize|
                j != i implies (#[trigger] self.ready_pool.items().contains(j)
                <==> old_r.ready_pool.items().contains(j)) by {
                if s0.contains(j) {
                    let m = choose|m: int| 0 <= m < s0.len() && s0[m] == j;
                    assert(s0.push(i)[m] == j);
                }
                if s0.push(i).contains(j) {
                    let m = choose|m: int| 0 <= m < s0.push(i).len() && s0.push(i)[m] == j;
                    assert(s0[m] == j);
                }
            }
            assert forall|x: usize| #[trigger]
                self.ready_pool.items().contains(x) implies (x as int) < self.slots@.len() by {
                if x != i {
                    assert(old_r.ready_pool.items().contains(x));
                }
            }
            assert forall|x: usize| #[trigger]
                self.outstanding.items().contains(x) implies (x as int) < self.slots@.len() by {
                if x != i {
                    assert(old_r.outstanding.items().contains(x));
                }
            }
            assert forall|j: usize|
                (j as int) < old_r.links@.len() && j != i && !old_r.ready_pool.items().contains(j)
                    && !old_r.outstanding.items().contains(j) implies #[trigger] self.links@[j as int]
                == old_r.links@[j as int] by {
                assert(!mid_out.contains(j));
            }
            Self::lemma_others_ok(&old_r, self, i);
            assert(self.ready_pool.items()[s0.len() as int] == i);
            assert(self.slot_ok(i as int));
            self.lemma_all_ok(i);
            assert(self@ =~= old_r@.unpark(i));
        }
    }

    /// Fills the control block of slot `i`, taken for `command` on file
    /// `fd`, and records its waiter and buffer token. The cookie of the
    /// control block is the slot's index. Returns the control block.
    pub fn set_payload(
        &mut self,
        i: usize,
        eventfd: i32,
        fd: i32,
        command: &RawCommand,
        tx: W,
        token: Option<T>,
    ) -> (r: Iocb)
        requires
            old(self).wf(),
            (i as int) < old(self)@.num_slots(),
            old(self)@.phases[i as int] == SlotState::Taken,
            command.len_fits(),
        ensures
            final(self).wf(),
            final(self)@ == old(self)@,
            final(self).others_kept(old(self), i),
            r == command_iocb(*command, fd, eventfd, i as u64),
            final(self).slot(i).control_block() == r,
            final(self).slot(i).waiter() == Some(tx),
            final(self).slot(i).token() == token,
    {
        let ghost old_r = *self;
        let iocb = build_iocb(command, fd, eventfd, i as u64);
        self.slots[i].aio_req = iocb;
        self.slots[i].completed_tx = Some(tx);
        self.slots[i].buf_lifetime_extender = token;
        proof {
            assert(old_r.slot_ok(i as int));
            assert(self@.phases =~= old_r@.phases);
            Self::lemma_others_ok(&old_r, self, i);
            assert(self.slot_ok(i as int));
            self.lemma_all_ok(i);
            assert(self@ =~= old_r@);
        }
        iocb
    }

    /// The kernel has accepted the control block of slot `i`.
    pub fn mark_submitted(&mut self, i: usize)
        requires
            old(self).wf(),
            (i as int) < old(self)@.num_slots(),
            old(self)@.phases[i as int] == SlotState::Taken,
            old(self).slot(i).waiter() is Some,
        ensures
            final(self).wf(),
            final(self)@ == old(self)@.set_phase(i, SlotState::InFlight),
            final(self).others_kept(old(self), i),
            final(self).payload_kept(old(self), i),
    {
        let ghost old_r = *self;
        self.slots[i].state = SlotState::InFlight;
        proof {
            let ph0 = old_r@.phases;
            assert(old_r.slot_ok(i as int));
            assert(self@.phases =~= ph0.update(i as int, SlotState::InFlight));
            lemma_count_update(ph0, i as int, SlotState::InFlight, 0);
            lemma_count_update(ph0, i as int, SlotState::InFlight, 3);
            Self::lemma_others_ok(&old_r, self, i);
            assert(self.slot_ok(i as int));
            self.lemma_all_ok(i);
            assert(self@ =~= old_r@.set_phase(i, SlotState::InFlight));
        }
    }

    /// The kernel has completed slot `i`, in flight, with `res`: the result
    /// is recorded and the waiter handed back, to be notified.
    pub fn send_to_waiter(&mut self, i: usize, res: i64) -> (r: W)
        requires
            old(self).wf(),
            (i as int) < old(self)@.num_slots(),
            old(self)@.phases[i as int] == SlotState::InFlight,
        ensures
            final(self).wf(),
            final(self)@ == old(self)@.set_phase(i, SlotState::Completed(res)),
            final(self).others_kept(old(self), i),
            old(self).slot(i).waiter() == Some(r),
            final(self).slot(i).waiter() is None,
            final(self).slot(i).control_block() == old(self).slot(i).control_block(),
            final(self).slot(i).token() == old(self).slot(i).token(),
    {
        let ghost old_r = *self;
        proof {
            assert(old_r.slot_ok(i as int));
        }
        let w = self.slots[i].completed_tx.take();
        self.slots[i].state = SlotState::Completed(res);
        proof {
            let ph0 = old_r@.phases;
            assert(self@.phases =~= ph0.update(i as int, SlotState::Completed(res)));
            lemma_count_update(ph0, i as int, SlotState::Completed(res), 0);
            lemma_count_update(ph0, i as int, SlotState::Completed(res), 3);
            Self::lemma_others_ok(&old_r, self, i);
            assert(self.slot_ok(i as int));
            self.lemma_all_ok(i);
            assert(self@ =~= old_r@.set_phase(i, SlotState::Completed(res)));
        }
        w.unwrap()
    }

    /// Every slot is in exactly one place: the ready list, the hands of a
    /// live operation, or the outstanding list; so the three together count
    /// the slots of the pool.
    pub proof fn lemma_slot_conservation(&self)
        requires
            self.wf(),
        ensures
            self@.ready.len() + held_count(self@.phases) + self@.outstanding.len()
                == self@.num_slots(),
            forall|i: usize|
                (i as int) < self@.num_slots() ==> (#[trigger] self@.ready.contains(i)
                    <==> self@.phases[i as int] == SlotState::Ready),
            forall|i: usize|
                (i as int) < self@.num_slots() ==> (#[trigger] self@.outstanding.contains(i)
                    <==> self@.phases[i as int] == SlotState::Outstanding),
            forall|x: usize| #[trigger] self@.ready.contains(x) ==> (x as int) < self@.num_slots(),
            forall|x: usize| #[trigger]
                self@.outstanding.contains(x) ==> (x as int) < self@.num_slots(),
            self@.ready.no_duplicates(),
            self@.outstanding.no_duplicates(),
            forall|i: usize|
                (i as int) < self@.num_slots() && self@.phases[i as int] == SlotState::Ready ==> (
                #[trigger] self.slot(i)).token() is None && self.slot(i).waiter() is None,
            forall|i: usize|
                (i as int) < self@.num_slots() && self@.phases[i as int] == SlotState::InFlight
                    ==> (#[trigger] self.slot(i)).waiter() is Some,
    {
        lemma_count_partition(self@.phases);
        assert forall|i: usize|
            (i as int) < self@.num_slots() && self@.phases[i as int]
                == SlotState::Ready implies (#[trigger] self.slot(i)).token() is None
            && self.slot(i).waiter() is None by {
            assert(self.slot_ok(i as int));
        }
        assert forall|i: usize|
            (i as int) < self@.num_slots() && self@.phases[i as int]
                == SlotState::InFlight implies (#[trigger] self.slot(i)).waiter() is Some by {
            assert(self.slot_ok(i as int));
        }
        self.ready_pool.lemma_unique(self.links@);
        self.outstanding.lemma_unique(self.links@);
        assert forall|i: usize| (i as int) < self@.num_slots() implies (
        #[trigger] self@.ready.contains(i) <==> self@.phases[i as int] == SlotState::Ready) by {
            assert(self.slot_ok(i as int));
        }
        assert forall|i: usize| (i as int) < self@.num_slots() implies (
        #[trigger] self@.outstanding.contains(i) <==> self@.phases[i as int]
            == SlotState::Outstanding) by {
            assert(self.slot_ok(i as int));
        }
    }

    /// Number of slots in the ready list.
    pub fn ready_len(&self) -> (r: usize)
        requires
            self.wf(),
        ensures
            r == self@.ready.len(),
    {
        self.ready_pool.len()
    }

    /// Number of slots in the outstanding list.
    pub fn outstanding_len(&self) -> (r: usize)
        requires
            self.wf(),
        ensures
            r == self@.outstanding.len(),
    {
        self.outstanding.len()
    }

    pub fn num_slots(&self) -> (r: usize)
        requires
            self.wf(),
        ensures
            r == self@.num_slots(),
    {
        self.slots.len()
    }

    /// State of slot `i`.
    pub fn state(&self, i: usize) -> (r: SlotState)
        requires
            self.wf(),
            (i as int) < self@.num_slots(),
        ensures
            r == self@.phases[i as int],
    {
        self.slots[i].state
    }
}

impl<T, W> Request<T, W> {
    pub closed spec fn new_spec() -> Request<T, W> {
        Request {
            state: SlotState::Ready,
            aio_req: zeroed_iocb(),
            completed_tx: None,
            buf_lifetime_extender: None,
        }
    }
}

} // verus!

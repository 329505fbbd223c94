use std::rc::Rc;

use linux_aio_tokio::aio::{IoEvent, IOCB_CMD_FDSYNC, IOCB_CMD_FSYNC, IOCB_CMD_PREAD, IOCB_CMD_PWRITE};
use linux_aio_tokio::context::{check_harvest, check_ready_events, completion_result, sync_result};
use linux_aio_tokio::eventfd::eventfd_count;
use linux_aio_tokio::{
    AioCommandError, AioContextError, AioCore, AtomicLink, AtomicLinkOps, BufRegion, Completion,
    EventFdError, Harvest, RawCommand, ReadFlags, Requests, SlotState, WriteFlags,
};

type Core = AioCore<Rc<()>, u32>;

fn event(slot: usize, res: i64) -> IoEvent {
    IoEvent { data: slot as u64, obj: 0, res, res2: 0 }
}

fn read_cmd(offset: u64, len: u64) -> RawCommand {
    RawCommand::Pread {
        offset,
        buffer: BufRegion { addr: 0x10000, size: 8192 },
        len,
        flags: ReadFlags::empty(),
    }
}

#[test]
fn new_context_has_every_slot_ready() {
    let core = Core::new(8, true, 5);
    assert_eq!(core.num_slots(), 8);
    assert_eq!(core.available_slots(), Some(8));
    assert!(core.is_quiescent());
    for i in 0..8 {
        assert_eq!(core.state(i), SlotState::Ready);
    }
}

#[test]
fn semaphore_off_reports_no_count() {
    let core = Core::new(4, false, 5);
    assert_eq!(core.available_slots(), None);
}

#[test]
fn read_control_block_fields() {
    let mut core = Core::new(2, true, 9);
    let cmd = RawCommand::Pread {
        offset: 4096,
        buffer: BufRegion { addr: 0x7000, size: 8192 },
        len: 512,
        flags: ReadFlags::from_bits_truncate(0x8),
    };
    let (slot, iocb) = core.submit_request(3, &cmd, None, 1).unwrap();
    assert_eq!(slot, 0);
    assert_eq!(iocb.aio_data, 0);
    assert_eq!(iocb.aio_resfd, 9);
    assert_eq!(iocb.aio_flags, 1 | 0x8);
    assert_eq!(iocb.aio_fildes, 3);
    assert_eq!(iocb.aio_offset, 4096);
    assert_eq!(iocb.aio_buf, 0x7000);
    assert_eq!(iocb.aio_nbytes, 512);
    assert_eq!(iocb.aio_lio_opcode, IOCB_CMD_PREAD);
    assert_eq!(iocb.aio_key, 0);
    assert_eq!(iocb.aio_rw_flags, 0);
    assert_eq!(iocb.aio_reqprio, 0);
    assert_eq!(iocb.aio_reserved2, 0);
}

#[test]
fn write_and_sync_control_blocks() {
    let mut core = Core::new(3, false, 4);
    let write = RawCommand::Pwrite {
        offset: 16384,
        buffer: BufRegion { addr: 0x9000, size: 4096 },
        len: 4096,
        flags: WriteFlags::from_bits_truncate(0x10).union(WriteFlags::from_bits_truncate(0x2)),
    };
    let (s0, w) = core.submit_request(6, &write, None, 1).unwrap();
    assert_eq!(s0, 0);
    assert_eq!(w.aio_lio_opcode, IOCB_CMD_PWRITE);
    assert_eq!(w.aio_flags, 1 | 0x10 | 0x2);
    assert_eq!(w.aio_offset, 16384);
    let (s1, f) = core.submit_request(6, &RawCommand::Fsync, None, 2).unwrap();
    assert_eq!(s1, 1);
    assert_eq!(f.aio_data, 1);
    assert_eq!(f.aio_lio_opcode, IOCB_CMD_FSYNC);
    assert_eq!(f.aio_flags, 1);
    assert_eq!(f.aio_buf, 0);
    assert_eq!(f.aio_nbytes, 0);
    assert_eq!(f.aio_offset, 0);
    let (s2, d) = core.submit_request(6, &RawCommand::Fdsync, None, 3).unwrap();
    assert_eq!(s2, 2);
    assert_eq!(d.aio_lio_opcode, IOCB_CMD_FDSYNC);
}

#[test]
fn slots_come_back_to_the_end_of_the_ready_list() {
    let mut core = Core::new(3, true, 5);
    let (a, _) = core.submit_request(3, &RawCommand::Fsync, None, 1).unwrap();
    let mut fa = core.submit_result(a, 1, 0).unwrap();
    assert!(matches!(core.complete(&event(a, 0)), Completion::Deliver(1)));
    assert_eq!(fa.poll(&mut core), Some(Ok(0)));
    let (b, _) = core.submit_request(3, &RawCommand::Fsync, None, 2).unwrap();
    let (c, _) = core.submit_request(3, &RawCommand::Fsync, None, 3).unwrap();
    let (d, _) = core.submit_request(3, &RawCommand::Fsync, None, 4).unwrap();
    assert_eq!((a, b, c, d), (0, 1, 2, 0));
}

#[test]
fn rejected_submission_frees_slot_and_token() {
    let mut core = Core::new(2, true, 5);
    let token = Rc::new(());
    let (slot, _) = core.submit_request(3, &read_cmd(0, 512), Some(token.clone()), 1).unwrap();
    assert_eq!(Rc::strong_count(&token), 2);
    assert_eq!(core.available_slots(), Some(1));
    let r = core.submit_result(slot, -1, 11);
    assert_eq!(r.err(), Some(AioCommandError::IoSubmit(11)));
    assert_eq!(Rc::strong_count(&token), 1);
    assert_eq!(core.available_slots(), Some(2));
    assert_eq!(core.state(slot), SlotState::Ready);
}

#[test]
fn completion_reaches_its_waiter() {
    let mut core = Core::new(4, true, 5);
    let token = Rc::new(());
    let (slot, _) = core.submit_request(3, &read_cmd(0, 8192), Some(token.clone()), 42).unwrap();
    let mut fut = core.submit_result(slot, 1, 0).unwrap();
    assert!(fut.is_waiting(&core));
    assert_eq!(fut.poll(&mut core), None);
    assert_eq!(core.state(slot), SlotState::InFlight);
    assert!(matches!(core.complete(&event(slot, 8192)), Completion::Deliver(42)));
    assert_eq!(core.state(slot), SlotState::Completed(8192));
    assert_eq!(Rc::strong_count(&token), 2);
    assert_eq!(fut.poll(&mut core), Some(Ok(8192)));
    assert!(!fut.is_waiting(&core));
    assert_eq!(Rc::strong_count(&token), 1);
    assert_eq!(core.available_slots(), Some(4));
}

#[test]
fn negative_result_is_an_errno() {
    let mut core = Core::new(1, true, 5);
    let (slot, _) = core.submit_request(3, &read_cmd(1000000, 100), None, 1).unwrap();
    let mut fut = core.submit_result(slot, 1, 0).unwrap();
    assert!(matches!(core.complete(&event(slot, -22)), Completion::Deliver(1)));
    assert_eq!(fut.poll(&mut core), Some(Err(AioCommandError::BadResult(22))));
    assert_eq!(core.available_slots(), Some(1));
}

#[test]
fn cancel_after_completion_frees_at_once() {
    let mut core = Core::new(2, true, 5);
    let token = Rc::new(());
    let (slot, _) = core.submit_request(3, &read_cmd(0, 512), Some(token.clone()), 1).unwrap();
    let mut fut = core.submit_result(slot, 1, 0).unwrap();
    assert!(matches!(core.complete(&event(slot, 512)), Completion::Deliver(1)));
    assert!(fut.cancel(&mut core));
    assert_eq!(Rc::strong_count(&token), 1);
    assert_eq!(core.available_slots(), Some(2));
    assert!(!fut.cancel(&mut core));
}

#[test]
fn cancel_in_flight_keeps_buffer_until_completion() {
    let mut core = Core::new(3, true, 5);
    let token = Rc::new(());
    let (slot, _) = core.submit_request(3, &read_cmd(0, 512), Some(token.clone()), 1).unwrap();
    let mut fut = core.submit_result(slot, 1, 0).unwrap();
    assert!(!fut.cancel(&mut core));
    assert_eq!(core.state(slot), SlotState::Outstanding);
    assert_eq!(Rc::strong_count(&token), 2);
    assert_eq!(core.available_slots(), Some(2));
    assert!(core.is_quiescent());
    assert!(matches!(core.complete(&event(slot, 512)), Completion::Reclaimed));
    assert_eq!(Rc::strong_count(&token), 1);
    assert_eq!(core.available_slots(), Some(3));
    assert_eq!(core.state(slot), SlotState::Ready);
}

#[test]
fn unknown_cookies_change_nothing() {
    let mut core = Core::new(2, true, 5);
    assert!(matches!(core.complete(&event(99, 0)), Completion::Unknown));
    assert!(matches!(core.complete(&event(0, 0)), Completion::Unknown));
    let (slot, _) = core.submit_request(3, &RawCommand::Fsync, None, 1).unwrap();
    assert!(matches!(core.complete(&event(slot, 0)), Completion::Unknown));
    let _fut = core.submit_result(slot, 1, 0).unwrap();
    assert!(matches!(core.complete(&event(slot, 0)), Completion::Deliver(1)));
    assert!(matches!(core.complete(&event(slot, 0)), Completion::Unknown));
    assert_eq!(core.available_slots(), Some(1));
}

#[test]
fn close_is_final() {
    let mut core = Core::new(2, true, 5);
    assert!(core.close());
    assert!(!core.close());
    let token = Rc::new(());
    let r = core.submit_request(3, &read_cmd(0, 512), Some(token.clone()), 1);
    assert_eq!(r.err(), Some(AioCommandError::AioStopped));
    assert_eq!(Rc::strong_count(&token), 1);
    assert_eq!(core.available_slots(), Some(2));
}

#[test]
fn no_semaphore_over_capacity() {
    let mut core = Core::new(1, false, 5);
    let (slot, _) = core.submit_request(3, &RawCommand::Fsync, None, 1).unwrap();
    assert_eq!(slot, 0);
    let r = core.submit_request(3, &RawCommand::Fsync, None, 2);
    assert_eq!(r.err(), Some(AioCommandError::CapacityExceeded));
}

#[test]
fn zero_slot_context_is_always_full() {
    let mut core = Core::new(0, true, 5);
    assert_eq!(core.available_slots(), Some(0));
    assert!(core.is_quiescent());
    let r = core.submit_request(3, &RawCommand::Fsync, None, 1);
    assert_eq!(r.err(), Some(AioCommandError::CapacityExceeded));
}

#[test]
fn ready_event_counts() {
    assert_eq!(check_ready_events(0, 8), None);
    assert_eq!(check_ready_events(1, 8), Some(1));
    assert_eq!(check_ready_events(8, 8), Some(8));
    assert_eq!(check_ready_events(9, 8), None);
}

#[test]
fn harvest_outcomes() {
    assert_eq!(check_harvest(3, -1), Harvest::Failed);
    assert_eq!(check_harvest(3, 3), Harvest::All);
    assert_eq!(check_harvest(3, 2), Harvest::Mismatch);
    assert_eq!(check_harvest(3, 4), Harvest::Mismatch);
}

#[test]
fn eventfd_reads() {
    assert_eq!(eventfd_count(8, 5), Some(5));
    assert_eq!(eventfd_count(4, 5), None);
    assert_eq!(eventfd_count(8, 0), None);
}

#[test]
fn result_codes() {
    assert_eq!(completion_result(0), Ok(0));
    assert_eq!(completion_result(4096), Ok(4096));
    assert_eq!(completion_result(-5), Err(AioCommandError::BadResult(5)));
    assert_eq!(completion_result(i64::MIN), Err(AioCommandError::BadResult(0)));
}

#[test]
fn sync_results() {
    assert_eq!(sync_result(Ok(0)), Ok(()));
    assert_eq!(sync_result(Ok(3)), Err(AioCommandError::NonZeroCode));
    assert_eq!(
        sync_result(Err(AioCommandError::AioStopped)),
        Err(AioCommandError::AioStopped)
    );
}

#[test]
fn flag_sets() {
    assert_eq!(WriteFlags::from_bits_truncate(0x10 | 0x100).bits(), 0x10);
    assert_eq!(WriteFlags::empty().bits(), 0);
    assert_eq!(ReadFlags::from_bits_truncate(0x10 | 0x1).bits(), 0x1);
    let both = ReadFlags::from_bits_truncate(0x1).union(ReadFlags::from_bits_truncate(0x8));
    assert_eq!(both.bits(), 0x9);
    assert!(both.contains(ReadFlags::from_bits_truncate(0x8)));
    assert!(!ReadFlags::from_bits_truncate(0x1).contains(both));
    assert!(WriteFlags::from_bits_truncate(0x14).contains(WriteFlags::from_bits_truncate(0x4)));
}

#[test]
fn buffer_fit() {
    assert!(read_cmd(0, 8192).fits());
    assert!(!read_cmd(0, 8193).fits());
    assert!(RawCommand::Fsync.fits());
    assert_eq!(read_cmd(7, 10).offset(), Some(7));
    assert_eq!(read_cmd(7, 10).len(), Some(10));
    assert_eq!(read_cmd(7, 10).buffer_addr(), Some((0x10000, 8192)));
    assert_eq!(RawCommand::Fdsync.flags(), None);
    assert_eq!(RawCommand::Fdsync.opcode(), IOCB_CMD_FDSYNC);
}

#[test]
fn links() {
    let mut link = AtomicLink::new();
    assert!(!link.locked);
    let mut ops = AtomicLinkOps;
    assert!(ops.acquire_link(&mut link));
    assert!(!ops.acquire_link(&mut link));
    ops.set_next(&mut link, Some(3));
    ops.set_prev(&mut link, Some(1));
    assert_eq!(ops.next(&link), Some(3));
    assert_eq!(ops.prev(&link), Some(1));
    ops.release_link(&mut link);
    assert_eq!(link, AtomicLink::new());
}

#[test]
fn context_error_from_eventfd_error() {
    assert_eq!(
        AioContextError::from(EventFdError::Create(24)),
        AioContextError::EventFd(EventFdError::Create(24))
    );
}

#[test]
fn pool_lists_move_slots() {
    let mut pool: Requests<u8, u8> = Requests::new(3);
    assert_eq!(pool.ready_len(), 3);
    assert_eq!(pool.take(), Some(0));
    assert_eq!(pool.take(), Some(1));
    pool.set_payload(1, 5, 3, &RawCommand::Fsync, 9, Some(4));
    pool.mark_submitted(1);
    pool.move_to_outstanding(1);
    assert_eq!(pool.outstanding_len(), 1);
    assert_eq!(pool.state(1), SlotState::Outstanding);
    pool.return_in_flight_to_ready(0);
    assert_eq!(pool.ready_len(), 2);
    pool.return_outstanding_to_ready(1);
    assert_eq!(pool.outstanding_len(), 0);
    assert_eq!(pool.ready_len(), 3);
    assert_eq!(pool.take(), Some(2));
    assert_eq!(pool.take(), Some(0));
    assert_eq!(pool.take(), Some(1));
    assert_eq!(pool.take(), None);
}

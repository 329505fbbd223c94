use std::rc::Rc;

use linux_aio_tokio::aio::IoEvent;
use linux_aio_tokio::{
    AioCommandError, AioCore, AioWaitFuture, BufRegion, Completion, RawCommand, ReadFlags,
    SlotState, WriteFlags,
};

type Core = AioCore<Rc<()>, u32>;

fn event(slot: usize, res: i64) -> IoEvent {
    IoEvent { data: slot as u64, obj: 0, res, res2: 0 }
}

fn read(offset: u64, len: u64) -> RawCommand {
    RawCommand::Pread {
        offset,
        buffer: BufRegion { addr: 0x20000, size: 8192 },
        len,
        flags: ReadFlags::empty(),
    }
}

fn write(offset: u64, len: u64) -> RawCommand {
    RawCommand::Pwrite {
        offset,
        buffer: BufRegion { addr: 0x40000, size: 8192 },
        len,
        flags: WriteFlags::empty(),
    }
}

fn start(core: &mut Core, cmd: &RawCommand, waiter: u32) -> (usize, AioWaitFuture) {
    let (slot, _) = core.submit_request(3, cmd, Some(Rc::new(())), waiter).unwrap();
    let fut = core.submit_result(slot, 1, 0).unwrap();
    (slot, fut)
}

fn finish(core: &mut Core, slot: usize, fut: &mut AioWaitFuture, res: i64) -> Result<u64, AioCommandError> {
    assert!(matches!(core.complete(&event(slot, res)), Completion::Deliver(_)));
    fut.poll(core).unwrap()
}

#[test]
fn write_then_read_round_trip() {
    let mut core = Core::new(8, true, 5);
    let append = RawCommand::Pwrite {
        offset: 0,
        buffer: BufRegion { addr: 0x40000, size: 1024 },
        len: 1024,
        flags: WriteFlags::from_bits_truncate(0x10),
    };
    let (ws, wiocb) = core.submit_request(3, &append, Some(Rc::new(())), 1).unwrap();
    assert_eq!(wiocb.aio_flags, 1 | 0x10);
    let mut wf = core.submit_result(ws, 1, 0).unwrap();
    assert_eq!(finish(&mut core, ws, &mut wf, 1024), Ok(1024));
    let (rs, mut rf) = start(&mut core, &read(0, 1024), 2);
    assert_eq!(finish(&mut core, rs, &mut rf, 1024), Ok(1024));
    assert_eq!(core.available_slots(), Some(8));
    assert!(core.close());
}

#[test]
fn over_capacity_without_semaphore() {
    let mut core = Core::new(2, false, 5);
    let (a, _fa) = start(&mut core, &read(0, 8192), 1);
    let (b, _fb) = start(&mut core, &read(8192, 8192), 2);
    let third = core.submit_request(3, &read(16384, 8192), None, 3);
    assert_eq!(third.err(), Some(AioCommandError::CapacityExceeded));
    assert_eq!(core.state(a), SlotState::InFlight);
    assert_eq!(core.state(b), SlotState::InFlight);
    assert!(!core.is_quiescent());
}

#[test]
fn cancellation_reclaim() {
    let mut core = Core::new(10, true, 5);
    let (slot, mut fut) = start(&mut core, &read(0, 8192), 1);
    assert_eq!(core.available_slots(), Some(9));
    drop_wait(&mut core, &mut fut);
    assert_eq!(core.available_slots(), Some(9));
    assert!(matches!(core.complete(&event(slot, 8192)), Completion::Reclaimed));
    assert_eq!(core.available_slots(), Some(10));
}

fn drop_wait(core: &mut Core, fut: &mut AioWaitFuture) {
    assert!(!fut.cancel(core));
}

#[test]
fn mixed_read_write_under_pressure() {
    let mut core = Core::new(7, true, 5);
    let offsets = [8192u64, 16384, 24576];
    let mut pending = Vec::new();
    for (k, off) in offsets.iter().enumerate() {
        let (s, f) = start(&mut core, &write(*off, 8192), k as u32);
        pending.push((s, f));
    }
    assert_eq!(core.available_slots(), Some(4));
    // the kernel completes them in reverse order
    while let Some((s, mut f)) = pending.pop() {
        assert_eq!(finish(&mut core, s, &mut f, 8192), Ok(8192));
    }
    for round in 0..3u32 {
        let mut reads = Vec::new();
        for off in offsets.iter() {
            reads.push(start(&mut core, &read(*off, 8192), round));
            let (ws, wf) = start(&mut core, &write(*off + 32768, 8192), round);
            reads.push((ws, wf));
        }
        assert_eq!(core.available_slots(), Some(1));
        for (s, mut f) in reads {
            assert_eq!(finish(&mut core, s, &mut f, 8192), Ok(8192));
        }
    }
    assert_eq!(core.available_slots(), Some(7));
    assert!(core.is_quiescent());
}

#[test]
fn close_while_busy() {
    let mut core = Core::new(10, true, 5);
    let (slot, mut fut) = start(&mut core, &read(0, 8192), 1);
    assert!(core.close());
    assert!(!core.is_quiescent());
    assert_eq!(finish(&mut core, slot, &mut fut, 8192), Ok(8192));
    assert!(core.is_quiescent());
    let r = core.submit_request(3, &read(0, 8192), None, 2);
    assert_eq!(r.err(), Some(AioCommandError::AioStopped));
}

#[test]
fn kernel_error_surfaces() {
    let mut core = Core::new(10, true, 5);
    let (slot, mut fut) = start(&mut core, &read(1000000, 100), 1);
    assert_eq!(
        finish(&mut core, slot, &mut fut, -22),
        Err(AioCommandError::BadResult(22))
    );
    assert_eq!(core.available_slots(), Some(10));
}

#[test]
fn slot_accounting_after_mixed_outcomes() {
    let mut core = Core::new(5, true, 5);
    let (a, mut fa) = start(&mut core, &read(0, 512), 1);
    let (b, mut fb) = start(&mut core, &read(512, 512), 2);
    let (_c, _fc) = start(&mut core, &read(1024, 512), 3);
    assert!(!fa.cancel(&mut core));
    assert!(matches!(core.complete(&event(b, 512)), Completion::Deliver(2)));
    // ready 2, held 2 (b completed, c in flight), outstanding 1 (a)
    assert_eq!(core.available_slots(), Some(2));
    assert_eq!(core.state(a), SlotState::Outstanding);
    assert_eq!(fb.poll(&mut core), Some(Ok(512)));
    assert!(matches!(core.complete(&event(a, 512)), Completion::Reclaimed));
    assert_eq!(core.available_slots(), Some(4));
}

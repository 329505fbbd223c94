//! The kernel's AIO records and constants, as plain values.
use vstd::prelude::*;

verus! {

/// Operation code of a positioned read.
pub const IOCB_CMD_PREAD: u16 = 0;

/// Operation code of a positioned write.
pub const IOCB_CMD_PWRITE: u16 = 1;

/// Operation code of a data and metadata sync.
pub const IOCB_CMD_FSYNC: u16 = 2;

/// Operation code of a data-only sync.
pub const IOCB_CMD_FDSYNC: u16 = 3;

/// Asks the kernel to signal the completion on the event file descriptor
/// held in `aio_resfd`.
pub const IOCB_FLAG_RESFD: u32 = 1;

/// Per-I/O: high priority request, poll if possible.
pub const RWF_HIPRI: u32 = 0x1;

/// Per-I/O `O_DSYNC`.
pub const RWF_DSYNC: u32 = 0x2;

/// Per-I/O `O_SYNC`.
pub const RWF_SYNC: u32 = 0x4;

/// Per-I/O: fail with `EAGAIN` where the operation would block.
pub const RWF_NOWAIT: u32 = 0x8;

/// Per-I/O `O_APPEND`.
pub const RWF_APPEND: u32 = 0x10;

/// The kernel's I/O control block (`struct iocb`), field for field.
#[derive(Clone, Copy, Debug, PartialEq, Eq, Structural)]
pub struct Iocb {
    pub aio_data: u64,
    pub aio_key: u32,
    pub aio_rw_flags: i32,
    pub aio_lio_opcode: u16,
    pub aio_reqprio: i16,
    pub aio_fildes: u32,
    pub aio_buf: u64,
    pub aio_nbytes: u64,
    pub aio_offset: i64,
    pub aio_reserved2: u64,
    pub aio_flags: u32,
    pub aio_resfd: u32,
}

/// A control block whose fields are all zero.
pub open spec fn zeroed_iocb() -> Iocb {
    Iocb {
        aio_data: 0,
        aio_key: 0,
        aio_rw_flags: 0,
        aio_lio_opcode: 0,
        aio_reqprio: 0,
        aio_fildes: 0,
        aio_buf: 0,
        aio_nbytes: 0,
        aio_offset: 0,
        aio_reserved2: 0,
        aio_flags: 0,
        aio_resfd: 0,
    }
}

impl Iocb {
    pub fn zeroed() -> (r: Iocb)
        ensures
            r == zeroed_iocb(),
    {
        Iocb {
            aio_data: 0,
            aio_key: 0,
            aio_rw_flags: 0,
            aio_lio_opcode: 0,
            aio_reqprio: 0,
            aio_fildes: 0,
            aio_buf: 0,
            aio_nbytes: 0,
            aio_offset: 0,
            aio_reserved2: 0,
            aio_flags: 0,
            aio_resfd: 0,
        }
    }
}

/// A completion event (`struct io_event`): the cookie of the control block
/// and the result of the operation.
#[derive(Clone, Copy, Debug, PartialEq, Eq, Structural)]
pub struct IoEvent {
    pub data: u64,
    pub obj: u64,
    pub res: i64,
    pub res2: i64,
}

} // verus!

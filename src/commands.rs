//! Commands that can be submitted to a context.
use vstd::prelude::*;

use crate::aio::{
    Iocb, IOCB_CMD_FDSYNC, IOCB_CMD_FSYNC, IOCB_CMD_PREAD, IOCB_CMD_PWRITE, IOCB_FLAG_RESFD,
    zeroed_iocb,
};
use crate::flags::{ReadFlags, WriteFlags};

verus! {

/// A locked buffer as the kernel sees it: where it starts and how many bytes
/// it holds.
#[derive(Clone, Copy, Debug, PartialEq, Eq, Structural)]
pub struct BufRegion {
    pub addr: u64,
    pub size: u64,
}

/// Raw AIO command.
#[derive(Clone, Copy, Debug, PartialEq, Eq, Structural)]
pub enum RawCommand {
    /// Read `len` bytes at `offset` into `buffer`.
    Pread { offset: u64, buffer: BufRegion, len: u64, flags: ReadFlags },
    /// Write `len` bytes of `buffer` at `offset`.
    Pwrite { offset: u64, buffer: BufRegion, len: u64, flags: WriteFlags },
    /// Sync data only.
    Fdsync,
    /// Sync data and metadata.
    Fsync,
}

impl RawCommand {
    pub open spec fn spec_opcode(self) -> u16 {
        match self {
            RawCommand::Pread { .. } => IOCB_CMD_PREAD,
            RawCommand::Pwrite { .. } => IOCB_CMD_PWRITE,
            RawCommand::Fdsync => IOCB_CMD_FDSYNC,
            RawCommand::Fsync => IOCB_CMD_FSYNC,
        }
    }

    pub open spec fn spec_offset(self) -> Option<u64> {
        match self {
            RawCommand::Pread { offset, .. } => Some(offset),
            RawCommand::Pwrite { offset, .. } => Some(offset),
            _ => None,
        }
    }

    pub open spec fn spec_buffer_addr(self) -> Option<(u64, u64)> {
        match self {
            RawCommand::Pread { buffer, .. } => Some((buffer.addr, buffer.size)),
            RawCommand::Pwrite { buffer, .. } => Some((buffer.addr, buffer.size)),
            _ => None,
        }
    }

    pub open spec fn spec_len(self) -> Option<u64> {
        match self {
            RawCommand::Pread { len, .. } => Some(len),
            RawCommand::Pwrite { len, .. } => Some(len),
            _ => None,
        }
    }

    pub open spec fn spec_flags(self) -> Option<u32> {
        match self {
            RawCommand::Pread { flags, .. } => Some(flags.spec_bits()),
            RawCommand::Pwrite { flags, .. } => Some(flags.spec_bits()),
            _ => None,
        }
    }

    /// The transfer stays within the buffer.
    pub open spec fn len_fits(self) -> bool {
        match self {
            RawCommand::Pread { buffer, len, .. } => len <= buffer.size,
            RawCommand::Pwrite { buffer, len, .. } => len <= buffer.size,
            _ => true,
        }
    }

    /// Whether the transfer stays within the buffer.
    pub fn fits(&self) -> (r: bool)
        ensures
            r == self.len_fits(),
    {
        match self {
            RawCommand::Pread { buffer, len, .. } => *len <= buffer.size,
            RawCommand::Pwrite { buffer, len, .. } => *len <= buffer.size,
            RawCommand::Fdsync => true,
            RawCommand::Fsync => true,
        }
    }

    pub fn opcode(&self) -> (r: u16)
        ensures
            r == self.spec_opcode(),
    {
        match self {
            RawCommand::Pread { .. } => IOCB_CMD_PREAD,
            RawCommand::Pwrite { .. } => IOCB_CMD_PWRITE,
            RawCommand::Fdsync => IOCB_CMD_FDSYNC,
            RawCommand::Fsync => IOCB_CMD_FSYNC,
        }
    }

    pub fn offset(&self) -> (r: Option<u64>)
        ensures
            r == self.spec_offset(),
    {
        match *self {
            RawCommand::Pread { offset, .. } => Some(offset),
            RawCommand::Pwrite { offset, .. } => Some(offset),
            RawCommand::Fdsync => None,
            RawCommand::Fsync => None,
        }
    }

    /// Address and capacity of the buffer, for reads and writes.
    pub fn buffer_addr(&self) -> (r: Option<(u64, u64)>)
        ensures
            r == self.spec_buffer_addr(),
    {
        match self {
            RawCommand::Pread { buffer, .. } => Some((buffer.addr, buffer.size)),
            RawCommand::Pwrite { buffer, .. } => Some((buffer.addr, buffer.size)),
            RawCommand::Fdsync => None,
            RawCommand::Fsync => None,
        }
    }

    /// Number of bytes to transfer, for reads and writes.
    pub fn len(&self) -> (r: Option<u64>)
        ensures
            r == self.spec_len(),
    {
        match *self {
            RawCommand::Pread { len, .. } => Some(len),
            RawCommand::Pwrite { len, .. } => Some(len),
            RawCommand::Fdsync => None,
            RawCommand::Fsync => None,
        }
    }

    /// The `RWF_*` bits of reads and writes.
    pub fn flags(&self) -> (r: Option<u32>)
        ensures
            r == self.spec_flags(),
    {
        match self {
            RawCommand::Pread { flags, .. } => Some(flags.bits()),
            RawCommand::Pwrite { flags, .. } => Some(flags.bits()),
            RawCommand::Fdsync => None,
            RawCommand::Fsync => None,
        }
    }
}

/// The control block that carries `cmd` on file `fd`, signals `eventfd`
/// and echoes `cookie` back in its completion event.
pub open spec fn command_iocb(cmd: RawCommand, fd: i32, eventfd: i32, cookie: u64) -> Iocb {
    let (addr, _size) = match cmd.spec_buffer_addr() {
        Some(b) => b,
        None => (0u64, 0u64),
    };
    Iocb {
        aio_data: cookie,
        aio_resfd: eventfd as u32,
        aio_flags: IOCB_FLAG_RESFD | match cmd.spec_flags() {
            Some(f) => f,
            None => 0u32,
        },
        aio_fildes: fd as u32,
        aio_offset: match cmd.spec_offset() {
            Some(o) => o as i64,
            None => 0i64,
        },
        aio_buf: addr,
        aio_nbytes: match cmd.spec_len() {
            Some(l) => l,
            None => 0u64,
        },
        aio_lio_opcode: cmd.spec_opcode(),
        ..zeroed_iocb()
    }
}

/// Builds the control block of [`command_iocb`].
pub fn build_iocb(cmd: &RawCommand, fd: i32, eventfd: i32, cookie: u64) -> (r: Iocb)
    requires
        cmd.len_fits(),
    ensures
        r == command_iocb(*cmd, fd, eventfd, cookie),
{
    let (addr, _size) = match cmd.buffer_addr() {
        Some(b) => b,
        None => (0, 0),
    };
    let flags: u32 = match cmd.flags() {
        Some(f) => f,
        None => 0,
    };
    let offset: i64 = match cmd.offset() {
        Some(o) => o as i64,
        None => 0,
    };
    let len: u64 = match cmd.len() {
        Some(l) => l,
        None => 0,
    };
    let mut iocb = Iocb::zeroed();
    iocb.aio_data = cookie;
    iocb.aio_resfd = eventfd as u32;
    iocb.aio_flags = IOCB_FLAG_RESFD | flags;
    iocb.aio_fildes = fd as u32;
    iocb.aio_offset = offset;
    iocb.aio_buf = addr;
    iocb.aio_nbytes = len;
    iocb.aio_lio_opcode = cmd.opcode();
    iocb
}

} // verus!

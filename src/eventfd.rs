//! What a read of the event file descriptor yields.
use vstd::prelude::*;

verus! {

/// Number of bytes that one read of the counter transfers.
pub const EVENTFD_READ_LEN: usize = 8;

/// A read of the counter must transfer all eight bytes and, the counter
/// being read only when it is non-zero, yield a positive count. Returns the
/// count, or `None` where either fails.
pub fn eventfd_count(n_read: usize, value: u64) -> (r: Option<u64>)
    ensures
        r == (if n_read == EVENTFD_READ_LEN && value != 0 {
            Some(value)
        } else {
            None::<u64>
        }),
{
    if n_read == EVENTFD_READ_LEN && value != 0 {
        Some(value)
    } else {
        None
    }
}

} // verus!

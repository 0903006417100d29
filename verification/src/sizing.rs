//! How large the next read buffer should be.

use vstd::prelude::*;

verus! {

/// The largest buffer a single read may fill: 10 MiB.
pub const MAX_BUFFER_SIZE: usize = 10485760;

/// The smaller of `remain` and [`MAX_BUFFER_SIZE`].
pub open spec fn buffer_size_spec(remain: nat) -> nat {
    if remain <= MAX_BUFFER_SIZE {
        remain
    } else {
        MAX_BUFFER_SIZE as nat
    }
}

/// The size of the buffer for the next read when `remain` bytes of the range
/// are still to be delivered. Zero means there is nothing left to read.
pub fn buffer_size(remain: u64) -> (size: usize)
    ensures
        size == buffer_size_spec(remain as nat),
        size <= MAX_BUFFER_SIZE,
        size <= remain,
        remain == 0 ==> size == 0,
{
    if remain >= MAX_BUFFER_SIZE as u64 {
        MAX_BUFFER_SIZE
    } else {
        remain as usize
    }
}

} // verus!

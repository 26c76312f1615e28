//! Constants of the kernel.
use vstd::prelude::*;

verus! {

/// Bytes in a page.
pub const PAGE_SIZE: usize = 4096;

/// Bits of a page offset.
pub const PAGE_SIZE_BITS: usize = 12;

/// Number of system call ids whose calls are counted per task.
pub const MAX_SYSCALL_NUM: usize = 500;

/// The pass a task of priority one advances by each time it is scheduled.
pub const BIGSTRIDE: isize = 1_000_000;

} // verus!

//! Task scheduling, per-task bookkeeping and the process system calls of a small
//! teaching kernel, with the data they rest on.
pub mod fs;
pub mod config;
pub mod mm;
pub mod task;
pub mod syscall;

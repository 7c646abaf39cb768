//! Task management and process-information system calls of a small
//! time-sharing kernel: the task table, the round-robin choice of the next
//! task, the per-call counters and the values that the `get_time` and
//! `task_info` calls hand back to user programs.
//!
//! Context switching, reading the hardware clock and copying values into user
//! memory are left to the code that drives this library: every decision that
//! those steps depend on is taken, and proved, here.

pub mod config;
pub mod task;
pub mod syscall;

//! System-call numbers and the process-management system calls.

use vstd::prelude::*;

pub mod process;

verus! {

/// Number of the `write` system call.
pub const SYSCALL_WRITE: usize = 64;

/// Number of the `exit` system call.
pub const SYSCALL_EXIT: usize = 93;

/// Number of the `yield` system call.
pub const SYSCALL_YIELD: usize = 124;

/// Number of the `get_time` system call.
pub const SYSCALL_GET_TIME: usize = 169;

/// Number of the `task_info` system call.
pub const SYSCALL_TASK_INFO: usize = 410;

} // verus!

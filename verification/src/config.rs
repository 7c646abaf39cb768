use vstd::prelude::*;

verus! {

/// Size of each user stack, in bytes.
pub const USER_STACK_SIZE: usize = 4096;

/// Size of each kernel stack, in bytes.
pub const KERNEL_STACK_SIZE: usize = 4096 * 20;

/// Size of the kernel heap, in bytes.
pub const KERNEL_HEAP_SIZE: usize = 0x20000;

/// The largest number of applications the kernel can hold.
pub const MAX_APP_NUM: usize = 16;

/// Address at which the first application is loaded.
pub const APP_BASE_ADDRESS: usize = 0x80400000;

/// The largest size of one application image, in bytes.
pub const APP_SIZE_LIMIT: usize = 0x20000;

/// Frequency of the machine timer, in ticks per second.
pub const CLOCK_FREQ: usize = 12500000;

/// Number of system-call numbers that are counted.
pub const MAX_SYSCALL_NUM: usize = 500;

} // verus!

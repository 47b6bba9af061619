//! Scheduling and virtual-memory-mapping core of a small teaching kernel:
//! a stride-scheduled ready queue, a page-granular mapping gateway that
//! validates mmap/munmap requests, and the syscall-facing adapters.

pub mod addr;
pub mod mem;
pub mod task;
pub mod manager;
pub mod syscall;

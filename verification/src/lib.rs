//! Process/task-management and virtual-memory core of a small teaching
//! operating system kernel, modelled as an explicitly constructed kernel
//! context.
//!
//! The kernel context owns the task arena, the FIFO ready queue, the
//! per-core current slot, the shared open-file table and a small in-memory
//! file store.  Each syscall adapter validates its arguments against that
//! state, mutates it, and reports success or failure through the classic
//! `0` / `-1` return convention.

pub mod fs;
pub mod kernel;
pub mod mem;
pub mod syscall;
pub mod task;

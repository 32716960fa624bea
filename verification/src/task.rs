//! The task control block: per-task mutable state.  In the simplified
//! single-thread-per-process model a task and a process coincide, so one
//! record carries the scheduling status, the address space, the descriptor
//! table, the parent/child links, the syscall counters and the data-segment
//! break.

use vstd::prelude::*;
use crate::mem::AddressSpace;

verus! {

/// Number of syscall ids the per-task invocation counters cover.
pub const MAX_SYSCALL_NUM: usize = 500;

/// Syscall ids of the external ABI, used to index the counters.
pub const SYSCALL_UNLINKAT: usize = 35;
pub const SYSCALL_LINKAT: usize = 37;
pub const SYSCALL_OPEN: usize = 56;
pub const SYSCALL_CLOSE: usize = 57;
pub const SYSCALL_PIPE: usize = 59;
pub const SYSCALL_READ: usize = 63;
pub const SYSCALL_WRITE: usize = 64;
pub const SYSCALL_FSTAT: usize = 80;
pub const SYSCALL_EXIT: usize = 93;
pub const SYSCALL_YIELD: usize = 124;
pub const SYSCALL_GET_TIME: usize = 169;
pub const SYSCALL_SBRK: usize = 214;
pub const SYSCALL_MUNMAP: usize = 215;
pub const SYSCALL_MMAP: usize = 222;
pub const SYSCALL_TASK_INFO: usize = 410;

/// A task's place in its life cycle.  `Running` is never stored in the
/// ready queue: it is implied by being a processor's current task.
/// `Zombie` is terminal; the record then survives only for parent-side
/// bookkeeping.
#[derive(Clone, Copy, Debug, PartialEq, Eq, Structural)]
pub enum TaskStatus {
    Ready,
    Running,
    Zombie,
}

/// One task control block.  Identity is the task's index in the kernel's
/// arena, recorded as `pid`; `children` holds owning handles into the
/// arena and `parent` a non-owning back-reference.
pub struct Tcb {
    /// Arena handle of the record; the root process holds the reserved pid.
    pub pid: usize,
    /// Place in the life cycle.
    pub status: TaskStatus,
    /// Recorded on exit, read by a reaping parent.
    pub exit_code: i32,
    /// The owning process's virtual address space.
    pub memory_set: AddressSpace,
    /// Descriptor table: slot index is the file descriptor, the value an
    /// optional handle into the kernel's shared open-file table.
    pub fd_table: Vec<Option<usize>>,
    /// Non-owning back-reference to the parent, if any.
    pub parent: Option<usize>,
    /// Owning handles of the children, in creation order.
    pub children: Vec<usize>,
    /// Per-syscall-id invocation counters, `MAX_SYSCALL_NUM` entries.
    pub syscall_times: Vec<u32>,
    /// Clock reading (microseconds since boot) when the task was created.
    pub start_time: usize,
    /// Lowest address of the data segment the break may shrink back to.
    pub heap_bottom: usize,
    /// Current program break.
    pub program_brk: usize,
}

} // verus!

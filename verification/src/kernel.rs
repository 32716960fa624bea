//! The kernel context: the task arena, the FIFO ready queue, the per-core
//! current slot, the shared open-file table, the file store and the boot
//! clock, gathered in one explicitly constructed object that the
//! scheduling and syscall entry points receive.
//!
//! Scheduling state machine: `Ready -> Running -> {Ready, Zombie}`.
//! `Running` is implied by being the current task; admission appends to
//! the ready queue's tail and dispatch pops its head — FIFO order is the
//! only fairness guarantee.

use vstd::prelude::*;
use crate::fs::Fs;
use crate::fs::OpenFile;
use crate::mem::AddressSpace;
use crate::task::MAX_SYSCALL_NUM;
use crate::task::TaskStatus;
use crate::task::Tcb;

verus! {

/// Reserved pid of the root/idle process; its exit is a fatal kernel
/// condition, so the exit path refuses it.
pub const IDLE_PID: usize = 0;

/// The whole kernel state.
pub struct Kernel {
    /// Arena of task control blocks; a task's handle is its index.
    pub tasks: Vec<Tcb>,
    /// FIFO ready queue of task handles.
    pub ready: Vec<usize>,
    /// The task currently bound to this core, if any.
    pub current: Option<usize>,
    /// Shared open-file table; descriptor slots hold indices into it.
    pub files: Vec<OpenFile>,
    /// The in-memory file store.
    pub fs: Fs,
    /// Clock: microseconds since boot, advanced by the environment.
    pub now_us: usize,
}

/// Every field of two task records agrees except possibly `status`.
pub open spec fn tcb_eq_except_status(a: Tcb, b: Tcb) -> bool {
    &&& a.pid == b.pid
    &&& a.exit_code == b.exit_code
    &&& a.memory_set.pages@ == b.memory_set.pages@
    &&& a.fd_table@ == b.fd_table@
    &&& a.parent == b.parent
    &&& a.children@ == b.children@
    &&& a.syscall_times@ == b.syscall_times@
    &&& a.start_time == b.start_time
    &&& a.heap_bottom == b.heap_bottom
    &&& a.program_brk == b.program_brk
}

/// Every field of two task records agrees except possibly the address
/// space.
pub open spec fn tcb_eq_except_mem(a: Tcb, b: Tcb) -> bool {
    &&& a.pid == b.pid
    &&& a.status == b.status
    &&& a.exit_code == b.exit_code
    &&& a.fd_table@ == b.fd_table@
    &&& a.parent == b.parent
    &&& a.children@ == b.children@
    &&& a.syscall_times@ == b.syscall_times@
    &&& a.start_time == b.start_time
    &&& a.heap_bottom == b.heap_bottom
    &&& a.program_brk == b.program_brk
}

/// Every field of two task records agrees except possibly the syscall
/// counters.
pub open spec fn tcb_eq_except_counts(a: Tcb, b: Tcb) -> bool {
    &&& a.pid == b.pid
    &&& a.status == b.status
    &&& a.exit_code == b.exit_code
    &&& a.memory_set.pages@ == b.memory_set.pages@
    &&& a.fd_table@ == b.fd_table@
    &&& a.parent == b.parent
    &&& a.children@ == b.children@
    &&& a.start_time == b.start_time
    &&& a.heap_bottom == b.heap_bottom
    &&& a.program_brk == b.program_brk
}

/// Every field of two task records agrees except possibly the children
/// list.
pub open spec fn tcb_eq_except_children(a: Tcb, b: Tcb) -> bool {
    &&& a.pid == b.pid
    &&& a.status == b.status
    &&& a.exit_code == b.exit_code
    &&& a.memory_set.pages@ == b.memory_set.pages@
    &&& a.fd_table@ == b.fd_table@
    &&& a.parent == b.parent
    &&& a.syscall_times@ == b.syscall_times@
    &&& a.start_time == b.start_time
    &&& a.heap_bottom == b.heap_bottom
    &&& a.program_brk == b.program_brk
}

/// Every field of two task records agrees except possibly the parent
/// reference.
pub open spec fn tcb_eq_except_parent(a: Tcb, b: Tcb) -> bool {
    &&& a.pid == b.pid
    &&& a.status == b.status
    &&& a.exit_code == b.exit_code
    &&& a.memory_set.pages@ == b.memory_set.pages@
    &&& a.fd_table@ == b.fd_table@
    &&& a.children@ == b.children@
    &&& a.syscall_times@ == b.syscall_times@
    &&& a.start_time == b.start_time
    &&& a.heap_bottom == b.heap_bottom
    &&& a.program_brk == b.program_brk
}

/// Two open-file tables agree entry for entry except possibly in the
/// reference counts.
pub open spec fn files_eq_except_refs(a: Seq<OpenFile>, b: Seq<OpenFile>) -> bool {
    &&& a.len() == b.len()
    &&& forall|h: int|
        0 <= h < a.len() ==> (#[trigger] b[h]).inode == (#[trigger] a[h]).inode && b[h].readable
            == a[h].readable && b[h].writable == a[h].writable && b[h].offset == a[h].offset
}

/// Every field of two task records agrees except possibly the scheduling
/// status and the parent/child links.
pub open spec fn tcb_eq_except_sched_links(a: Tcb, b: Tcb) -> bool {
    &&& a.pid == b.pid
    &&& a.exit_code == b.exit_code
    &&& a.memory_set.pages@ == b.memory_set.pages@
    &&& a.fd_table@ == b.fd_table@
    &&& a.syscall_times@ == b.syscall_times@
    &&& a.start_time == b.start_time
    &&& a.heap_bottom == b.heap_bottom
    &&& a.program_brk == b.program_brk
}

/// How many slots of a descriptor table hold the open-file handle `h`.
pub open spec fn handle_count(ft: Seq<Option<usize>>, h: usize) -> nat
    decreases ft.len(),
{
    if ft.len() == 0 {
        0
    } else {
        handle_count(ft.drop_last(), h) + (if ft.last() == Some(h) {
            1nat
        } else {
            0nat
        })
    }
}

/// A reference count after `n` saturating decrements.
pub open spec fn drained(refs: usize, n: nat) -> usize {
    if refs >= n {
        (refs - n) as usize
    } else {
        0
    }
}

/// The open-file table and file store of `b` are those of `a`.
pub open spec fn files_fs_eq(a: Kernel, b: Kernel) -> bool {
    &&& a.files@ == b.files@
    &&& a.fs.inodes@ == b.fs.inodes@
    &&& a.fs.dents@ == b.fs.dents@
    &&& a.now_us == b.now_us
}

impl Kernel {
    /// Validity of one task record against this kernel: a well-formed
    /// address space, full-size counter table, and every handle it holds
    /// (descriptors, children, parent) in bounds.  A child handle is never
    /// the root and never the task itself, and the break stays between the
    /// heap bottom and the syscall layer's `isize` return channel.
    pub open spec fn task_wf(self, t: Tcb) -> bool {
        &&& t.memory_set.wf()
        &&& t.syscall_times@.len() == MAX_SYSCALL_NUM
        &&& forall|f: int|
            0 <= f < t.fd_table@.len() && (#[trigger] t.fd_table@[f]).is_some()
                ==> t.fd_table@[f].unwrap() < self.files@.len()
        &&& forall|c: int|
            0 <= c < t.children@.len() ==> #[trigger] t.children@[c] < self.tasks@.len()
                && t.children@[c] != IDLE_PID && t.children@[c] != t.pid
        &&& (t.parent.is_some() ==> t.parent.unwrap() < self.tasks@.len())
        &&& t.heap_bottom <= t.program_brk
        &&& t.program_brk <= usize::MAX / 2
    }

    /// Kernel invariant: arena handles are pids, every task is valid, the
    /// ready queue holds distinct in-bounds handles, the current task is
    /// owned by the current slot alone, and the file layer is consistent.
    pub open spec fn wf(self) -> bool {
        &&& forall|i: int|
            0 <= i < self.tasks@.len() ==> self.task_wf(#[trigger] self.tasks@[i])
                && self.tasks@[i].pid == i
        &&& forall|q: int|
            0 <= q < self.ready@.len() ==> #[trigger] self.ready@[q] < self.tasks@.len()
        &&& forall|p: int, q: int|
            0 <= p < q < self.ready@.len() ==> self.ready@[p] != self.ready@[q]
        &&& (self.current.is_some() ==> self.current.unwrap() < self.tasks@.len()
            && !self.ready@.contains(self.current.unwrap()))
        &&& forall|h: int|
            0 <= h < self.files@.len() ==> (#[trigger] self.files@[h]).inode
                < self.fs.inodes@.len()
        &&& self.fs.wf()
    }

    /// Whether some task is bound to this core.
    pub open spec fn has_current(self) -> bool {
        self.current.is_some()
    }

    /// Handle of the current task (meaningful when `has_current`).
    pub open spec fn cur(self) -> int {
        self.current.unwrap() as int
    }

    /// The current task's record (meaningful when `has_current`).
    pub open spec fn cur_task(self) -> Tcb {
        self.tasks@[self.cur()]
    }

    /// A powered-off kernel: no tasks, nothing ready, nothing current.
    pub fn new() -> (r: Kernel)
        ensures
            r.wf(),
            r.tasks@.len() == 0,
            r.ready@.len() == 0,
            r.current.is_none(),
            r.files@.len() == 0,
            r.fs.dents@.len() == 0,
            r.fs.inodes@.len() == 0,
            r.now_us == 0,
    {
        Kernel {
            tasks: Vec::new(),
            ready: Vec::new(),
            current: None,
            files: Vec::new(),
            fs: Fs::new(),
            now_us: 0,
        }
    }

    /// Sets the boot clock, in microseconds since boot.  The timer is an
    /// outside collaborator; the environment feeds its reading in here.
    pub fn set_clock_us(&mut self, us: usize)
        requires
            old(self).wf(),
        ensures
            final(self).wf(),
            final(self).now_us == us,
            final(self).tasks@ == old(self).tasks@,
            final(self).ready@ == old(self).ready@,
            final(self).current == old(self).current,
            final(self).files@ == old(self).files@,
            final(self).fs.inodes@ == old(self).fs.inodes@,
            final(self).fs.dents@ == old(self).fs.dents@,
    {
        self.now_us = us;
    }

    /// Creates the root process and admits it to the ready queue.  Boot
    /// seeds the root from a bootstrap image; the image loader is an
    /// outside collaborator, so the root starts here with an empty address
    /// space and descriptor table.
    pub fn add_initproc(&mut self)
        requires
            old(self).wf(),
            old(self).tasks@.len() == 0,
            old(self).ready@.len() == 0,
            old(self).current.is_none(),
        ensures
            final(self).wf(),
            final(self).tasks@.len() == 1,
            final(self).tasks@[0].pid == IDLE_PID,
            final(self).tasks@[0].status == TaskStatus::Ready,
            final(self).tasks@[0].parent.is_none(),
            final(self).tasks@[0].children@.len() == 0,
            final(self).tasks@[0].exit_code == 0,
            final(self).tasks@[0].memory_set.page_map() == Map::<int, u8>::empty(),
            final(self).tasks@[0].fd_table@.len() == 0,
            final(self).tasks@[0].syscall_times@.len() == MAX_SYSCALL_NUM,
            forall|s: int|
                0 <= s < MAX_SYSCALL_NUM ==> final(self).tasks@[0].syscall_times@[s] == 0u32,
            final(self).tasks@[0].start_time == old(self).now_us,
            final(self).tasks@[0].heap_bottom == 0,
            final(self).tasks@[0].program_brk == 0,
            final(self).ready@ == seq![IDLE_PID],
            final(self).current == old(self).current,
            files_fs_eq(*old(self), *final(self)),
    {
        let root = Tcb {
            pid: IDLE_PID,
            status: TaskStatus::Ready,
            exit_code: 0,
            memory_set: AddressSpace::new(),
            fd_table: Vec::new(),
            parent: None,
            children: Vec::new(),
            syscall_times: zeroed_counters(),
            start_time: self.now_us,
            heap_bottom: 0,
            program_brk: 0,
        };
        self.tasks.push(root);
        self.ready.push(IDLE_PID);
        proof {
            assert(final(self).ready@ =~= seq![IDLE_PID]);
        }
    }

    /// Creates a task as a child of `parent`: the new record enters
    /// `Ready` and is appended to the ready queue's tail, the parent's
    /// children list gains its handle, and the handle is returned.
    pub fn spawn(&mut self, parent: usize) -> (r: usize)
        requires
            old(self).wf(),
            parent < old(self).tasks@.len(),
        ensures
            final(self).wf(),
            r == old(self).tasks@.len(),
            final(self).tasks@.len() == old(self).tasks@.len() + 1,
            final(self).tasks@[r as int].pid == r,
            final(self).tasks@[r as int].status == TaskStatus::Ready,
            final(self).tasks@[r as int].parent == Some(parent),
            final(self).tasks@[r as int].children@.len() == 0,
            final(self).tasks@[r as int].start_time == old(self).now_us,
            final(self).tasks@[parent as int].children@ == old(
                self,
            ).tasks@[parent as int].children@.push(r),
            tcb_eq_except_children(
                old(self).tasks@[parent as int],
                final(self).tasks@[parent as int],
            ),
            forall|i: int|
                0 <= i < old(self).tasks@.len() && i != parent ==> final(self).tasks@[i] == old(
                    self,
                ).tasks@[i],
            final(self).ready@ == old(self).ready@.push(r),
            final(self).current == old(self).current,
            files_fs_eq(*old(self), *final(self)),
    {
        let id = self.tasks.len();
        let child = Tcb {
            pid: id,
            status: TaskStatus::Ready,
            exit_code: 0,
            memory_set: AddressSpace::new(),
            fd_table: Vec::new(),
            parent: Some(parent),
            children: Vec::new(),
            syscall_times: zeroed_counters(),
            start_time: self.now_us,
            heap_bottom: 0,
            program_brk: 0,
        };
        self.tasks.push(child);
        let p = &mut self.tasks[parent];
        p.children.push(id);
        self.ready.push(id);
        id
    }

    /// Appends a ready task to the queue's tail (FIFO admission).
    pub fn add_task(&mut self, id: usize)
        requires
            old(self).wf(),
            id < old(self).tasks@.len(),
            !old(self).ready@.contains(id),
            old(self).current != Some(id),
        ensures
            final(self).wf(),
            final(self).ready@ == old(self).ready@.push(id),
            final(self).tasks@ == old(self).tasks@,
            final(self).current == old(self).current,
            files_fs_eq(*old(self), *final(self)),
    {
        self.ready.push(id);
    }

    /// Pops the head of the ready queue (FIFO removal).
    pub fn fetch_task(&mut self) -> (r: Option<usize>)
        requires
            old(self).wf(),
        ensures
            final(self).wf(),
            old(self).ready@.len() == 0 ==> r.is_none() && final(self).ready@ == old(
                self,
            ).ready@,
            old(self).ready@.len() > 0 ==> r == Some(old(self).ready@[0]) && final(self).ready@
                == old(self).ready@.skip(1),
            final(self).tasks@ == old(self).tasks@,
            final(self).current == old(self).current,
            files_fs_eq(*old(self), *final(self)),
    {
        if self.ready.len() == 0 {
            return None;
        }
        let id = self.ready.remove(0);
        proof {
            assert(final(self).ready@ =~= old(self).ready@.skip(1));
        }
        Some(id)
    }

    /// Atomically unbinds and returns the current task, so scheduling code
    /// can move it without holding the core's slot.
    pub fn take_current_task(&mut self) -> (r: Option<usize>)
        requires
            old(self).wf(),
        ensures
            final(self).wf(),
            r == old(self).current,
            final(self).current.is_none(),
            final(self).ready@ == old(self).ready@,
            final(self).tasks@ == old(self).tasks@,
            files_fs_eq(*old(self), *final(self)),
    {
        let c = self.current;
        self.current = None;
        c
    }

    /// One turn of the per-core scheduling loop: with the core idle, pop
    /// the head of the ready queue, mark it `Running` and bind it as the
    /// current task.  With nothing ready the core stays idle.
    pub fn run_next_task(&mut self)
        requires
            old(self).wf(),
            old(self).current.is_none(),
        ensures
            final(self).wf(),
            old(self).ready@.len() == 0 ==> final(self).current.is_none() && final(self).ready@
                == old(self).ready@ && final(self).tasks@ == old(self).tasks@,
            old(self).ready@.len() > 0 ==> {
                let head = old(self).ready@[0];
                &&& final(self).current == Some(head)
                &&& final(self).ready@ == old(self).ready@.skip(1)
                &&& final(self).tasks@.len() == old(self).tasks@.len()
                &&& final(self).tasks@[head as int].status == TaskStatus::Running
                &&& tcb_eq_except_status(
                    old(self).tasks@[head as int],
                    final(self).tasks@[head as int],
                )
                &&& forall|i: int|
                    0 <= i < old(self).tasks@.len() && i != head ==> final(self).tasks@[i]
                        == old(self).tasks@[i]
            },
            files_fs_eq(*old(self), *final(self)),
    {
        let fetched = self.fetch_task();
        match fetched {
            None => {},
            Some(id) => {
                let t = &mut self.tasks[id];
                t.status = TaskStatus::Running;
                self.current = Some(id);
            },
        }
    }
    /// Suspends the current `Running` task on a voluntary yield: its
    /// status returns to `Ready`, it is re-enqueued at the ready queue's
    /// tail, and the next ready task (possibly the same one, when nothing
    /// else is ready) is dispatched.
    pub fn suspend_current_and_run_next(&mut self)
        requires
            old(self).wf(),
            old(self).has_current(),
        ensures
            final(self).wf(),
            ({
                let id = old(self).current.unwrap();
                let q = old(self).ready@.push(id);
                &&& final(self).current == Some(q[0])
                &&& final(self).ready@ == q.skip(1)
                &&& final(self).tasks@.len() == old(self).tasks@.len()
                &&& final(self).tasks@[q[0] as int].status == TaskStatus::Running
                &&& (id != q[0] ==> final(self).tasks@[id as int].status == TaskStatus::Ready)
                &&& tcb_eq_except_status(
                    old(self).tasks@[id as int],
                    final(self).tasks@[id as int],
                )
                &&& tcb_eq_except_status(
                    old(self).tasks@[q[0] as int],
                    final(self).tasks@[q[0] as int],
                )
                &&& forall|i: int|
                    0 <= i < old(self).tasks@.len() && i != id && i != q[0] ==> final(self).tasks@[i] == old(self).tasks@[i]
            }),
            files_fs_eq(*old(self), *final(self)),
    {
        let id = self.current.unwrap();
        self.current = None;
        let t = &mut self.tasks[id];
        t.status = TaskStatus::Ready;
        self.ready.push(id);
        self.run_next_task();
    }

    /// Exits the current task: it becomes a `Zombie` with the given exit
    /// code, each of its children is reparented to the root process (the
    /// root's children list grows by exactly that many, in order), its own
    /// children list is cleared, its address space is fully recycled and
    /// its descriptor table is torn down (each held handle's reference
    /// count dropping by one).  The next ready task is then dispatched.
    /// The root itself exiting is a fatal kernel condition, excluded here.
    pub fn exit_current_and_run_next(&mut self, exit_code: i32)
        requires
            old(self).wf(),
            old(self).has_current(),
            old(self).current.unwrap() != IDLE_PID,
        ensures
            final(self).wf(),
            ({
                let id = old(self).current.unwrap();
                let kids = old(self).tasks@[id as int].children@;
                &&& final(self).tasks@.len() == old(self).tasks@.len()
                &&& final(self).tasks@[id as int].status == TaskStatus::Zombie
                &&& final(self).tasks@[id as int].exit_code == exit_code
                &&& final(self).tasks@[id as int].children@.len() == 0
                &&& final(self).tasks@[id as int].memory_set.page_map() == Map::<
                    int,
                    u8,
                >::empty()
                &&& final(self).tasks@[id as int].fd_table@.len() == 0
                &&& final(self).tasks@[IDLE_PID as int].children@ == old(
                    self,
                ).tasks@[IDLE_PID as int].children@ + kids
                &&& forall|k: int|
                    0 <= k < kids.len() ==> final(self).tasks@[#[trigger] kids[k] as int].parent
                        == Some(IDLE_PID)
                &&& (old(self).ready@.len() > 0 ==> final(self).current == Some(
                    old(self).ready@[0],
                ) && final(self).ready@ == old(self).ready@.skip(1) && final(self).tasks@[old(self).ready@[0] as int].status == TaskStatus::Running)
                &&& (old(self).ready@.len() == 0 ==> final(self).current.is_none() && final(self).ready@ == old(self).ready@)
                &&& forall|i: int|
                    0 <= i < old(self).tasks@.len() && i != id && i != IDLE_PID && (forall|
                        j: int,
                    | 0 <= j < kids.len() ==> #[trigger] kids[j] as int != i) && !(old(
                        self,
                    ).ready@.len() > 0 && i == old(self).ready@[0] as int) ==> final(self).tasks@[i] == old(self).tasks@[i]
                &&& (forall|i: int|
                    0 <= i < old(self).tasks@.len() && i != id ==> tcb_eq_except_sched_links(
                        old(self).tasks@[i],
                        #[trigger] final(self).tasks@[i],
                    ))
                &&& (forall|i: int|
                    0 <= i < old(self).tasks@.len() && i != id && i != IDLE_PID ==> (
                    #[trigger] final(self).tasks@[i]).children@ == old(self).tasks@[i].children@)
                &&& (forall|i: int|
                    0 <= i < old(self).tasks@.len() && (forall|j: int|
                        0 <= j < kids.len() ==> #[trigger] kids[j] as int != i) ==> (
                    #[trigger] final(self).tasks@[i]).parent == old(self).tasks@[i].parent)
                &&& (forall|i: int|
                    0 <= i < old(self).tasks@.len() && i != id && !(old(self).ready@.len() > 0
                        && i == old(self).ready@[0] as int) ==> (
                    #[trigger] final(self).tasks@[i]).status == old(self).tasks@[i].status)
                &&& (forall|h: int|
                    0 <= h < old(self).files@.len() ==> (#[trigger] final(self).files@[h]).refs
                        == drained(
                        old(self).files@[h].refs,
                        handle_count(old(self).tasks@[id as int].fd_table@, h as usize),
                    ))
            }),
            files_eq_except_refs(old(self).files@, final(self).files@),
            final(self).fs.inodes@ == old(self).fs.inodes@,
            final(self).fs.dents@ == old(self).fs.dents@,
            final(self).now_us == old(self).now_us,
    {
        let id = self.current.unwrap();
        self.current = None;
        let t = &mut self.tasks[id];
        t.status = TaskStatus::Zombie;
        t.exit_code = exit_code;
        let kids = clone_handles(&self.tasks[id].children);
        let ghost mid = *self;
        let nkids = kids.len();
        let mut k: usize = 0;
        while k < nkids
            invariant
                nkids == kids@.len(),
                0 <= k <= nkids,
                self.wf(),
                self.current.is_none(),
                id < self.tasks@.len(),
                id != IDLE_PID,
                kids@ == mid.tasks@[id as int].children@,
                self.tasks@.len() == mid.tasks@.len(),
                self.ready@ == mid.ready@,
                forall|j: int| 0 <= j < nkids ==> #[trigger] kids@[j] < self.tasks@.len()
                    && kids@[j] != IDLE_PID && kids@[j] != id,
                self.tasks@[IDLE_PID as int].children@ == mid.tasks@[IDLE_PID as int].children@
                    + kids@.take(k as int),
                tcb_eq_except_children(
                    mid.tasks@[IDLE_PID as int],
                    self.tasks@[IDLE_PID as int],
                ),
                forall|j: int|
                    0 <= j < k ==> self.tasks@[#[trigger] kids@[j] as int].parent == Some(
                        IDLE_PID,
                    ),
                forall|i: int|
                    0 <= i < self.tasks@.len() && i != IDLE_PID && (forall|j: int|
                        0 <= j < k ==> #[trigger] kids@[j] as int != i) ==> self.tasks@[i]
                        == mid.tasks@[i],
                forall|j: int|
                    0 <= j < k ==> tcb_eq_except_parent(
                        mid.tasks@[#[trigger] kids@[j] as int],
                        self.tasks@[kids@[j] as int],
                    ),
                files_fs_eq(mid, *self),
            decreases nkids - k,
        {
            let c = kids[k];
            let ct = &mut self.tasks[c];
            ct.parent = Some(IDLE_PID);
            let rt = &mut self.tasks[IDLE_PID];
            rt.children.push(c);
            proof {
                assert(self.tasks@[IDLE_PID as int].children@ =~= mid.tasks@[
                    IDLE_PID as int].children@ + kids@.take(k + 1));
            }
            k += 1;
        }
        proof {
            assert(kids@.take(nkids as int) =~= kids@);
        }
        let ghost post_loop = *self;
        let t2 = &mut self.tasks[id];
        t2.children = Vec::new();
        t2.memory_set.recycle_data_pages();
        let ghost mid2 = *self;
        let ghost ftid = mid2.tasks@[id as int].fd_table@;
        let nf = self.tasks[id].fd_table.len();
        let nfiles = self.files.len();
        let mut f: usize = 0;
        while f < nf
            invariant
                0 <= f <= nf,
                self.wf(),
                id < self.tasks@.len(),
                nfiles == mid2.files@.len(),
                nf == ftid.len(),
                ftid == self.tasks@[id as int].fd_table@,
                self.tasks@ == mid2.tasks@,
                self.ready@ == mid2.ready@,
                self.current == mid2.current,
                files_eq_except_refs(mid2.files@, self.files@),
                forall|h: int|
                    0 <= h < mid2.files@.len() ==> (#[trigger] self.files@[h]).refs == drained(
                        mid2.files@[h].refs,
                        handle_count(ftid.take(f as int), h as usize),
                    ),
                self.fs.inodes@ == mid2.fs.inodes@,
                self.fs.dents@ == mid2.fs.dents@,
                self.now_us == mid2.now_us,
            decreases nf - f,
        {
            let ghost files_before = self.files@;
            let slot = self.tasks[id].fd_table[f];
            proof {
                assert(ftid.take(f + 1).drop_last() =~= ftid.take(f as int));
                assert(ftid.take(f + 1).last() == ftid[f as int]);
            }
            match slot {
                None => {},
                Some(h) => {
                    let fe = &mut self.files[h];
                    if fe.refs > 0 {
                        fe.refs = fe.refs - 1;
                    }
                },
            }
            proof {
                assert forall|h: int| 0 <= h < mid2.files@.len() implies (
                #[trigger] self.files@[h]).refs == drained(
                    mid2.files@[h].refs,
                    handle_count(ftid.take(f + 1), h as usize),
                ) by {
                    if ftid[f as int] == Some(h as usize) {
                        assert(self.files@[h].refs == (if files_before[h].refs > 0 {
                            (files_before[h].refs - 1) as usize
                        } else {
                            0usize
                        }));
                    } else {
                        assert(self.files@[h] == files_before[h]);
                    }
                }
            }
            f += 1;
        }
        proof {
            assert(ftid.take(nf as int) =~= ftid);
        }
        let t3 = &mut self.tasks[id];
        t3.fd_table = Vec::new();
        let ghost post_clear = *self;
        self.run_next_task();
        proof {
            let idg = old(self).current.unwrap() as int;
            let kidsg = old(self).tasks@[idg].children@;
            assert(kids@ == kidsg);
            if old(self).ready@.len() > 0 {
                assert(old(self).ready@.contains(old(self).ready@[0]));
            }
            assert forall|i: int|
                0 <= i < old(self).tasks@.len() && i != idg && i != IDLE_PID as int && (forall|
                    j: int,
                | 0 <= j < kidsg.len() ==> #[trigger] kidsg[j] as int != i) && !(old(
                    self,
                ).ready@.len() > 0 && i == old(self).ready@[0] as int) implies self.tasks@[i]
                == old(self).tasks@[i] by {
                assert(forall|j: int| 0 <= j < kids@.len() ==> #[trigger] kids@[j] as int != i);
                assert(post_loop.tasks@[i] == mid.tasks@[i]);
                assert(post_clear.tasks@[i] == post_loop.tasks@[i]);
                assert(self.tasks@[i] == post_clear.tasks@[i]);
            }
            assert forall|i: int|
                0 <= i < old(self).tasks@.len() && i != idg implies tcb_eq_except_sched_links(
                old(self).tasks@[i],
                #[trigger] self.tasks@[i],
            ) by {
                if i == IDLE_PID as int {
                } else if exists|j: int| 0 <= j < kids@.len() && #[trigger] kids@[j] as int == i {
                    let j = choose|j: int|
                        0 <= j < kids@.len() && #[trigger] kids@[j] as int == i;
                    assert(tcb_eq_except_parent(mid.tasks@[kids@[j] as int],
                        post_loop.tasks@[kids@[j] as int]));
                } else {
                    assert(forall|j: int|
                        0 <= j < kids@.len() ==> #[trigger] kids@[j] as int != i);
                    assert(post_loop.tasks@[i] == mid.tasks@[i]);
                }
                assert(post_clear.tasks@[i] == post_loop.tasks@[i]);
            }
            assert forall|i: int|
                0 <= i < old(self).tasks@.len() && i != idg && i != IDLE_PID as int implies (
            #[trigger] self.tasks@[i]).children@ == old(self).tasks@[i].children@ by {
                if exists|j: int| 0 <= j < kids@.len() && #[trigger] kids@[j] as int == i {
                    let j = choose|j: int|
                        0 <= j < kids@.len() && #[trigger] kids@[j] as int == i;
                    assert(tcb_eq_except_parent(mid.tasks@[kids@[j] as int],
                        post_loop.tasks@[kids@[j] as int]));
                } else {
                    assert(forall|j: int|
                        0 <= j < kids@.len() ==> #[trigger] kids@[j] as int != i);
                    assert(post_loop.tasks@[i] == mid.tasks@[i]);
                }
                assert(post_clear.tasks@[i] == post_loop.tasks@[i]);
            }
            assert forall|i: int|
                0 <= i < old(self).tasks@.len() && (forall|j: int|
                    0 <= j < kidsg.len() ==> #[trigger] kidsg[j] as int != i) implies (
            #[trigger] self.tasks@[i]).parent == old(self).tasks@[i].parent by {
                assert(forall|j: int| 0 <= j < kids@.len() ==> #[trigger] kids@[j] as int != i);
                if i != IDLE_PID as int {
                    assert(post_loop.tasks@[i] == mid.tasks@[i]);
                }
                assert(post_clear.tasks@[i].parent == post_loop.tasks@[i].parent);
            }
            assert forall|i: int|
                0 <= i < old(self).tasks@.len() && i != idg && !(old(self).ready@.len() > 0 && i
                    == old(self).ready@[0] as int) implies (#[trigger] self.tasks@[i]).status
                == old(self).tasks@[i].status by {
                if i != IDLE_PID as int {
                    if exists|j: int| 0 <= j < kids@.len() && #[trigger] kids@[j] as int == i {
                        let j = choose|j: int|
                            0 <= j < kids@.len() && #[trigger] kids@[j] as int == i;
                        assert(tcb_eq_except_parent(mid.tasks@[kids@[j] as int],
                            post_loop.tasks@[kids@[j] as int]));
                    } else {
                        assert(forall|j: int|
                            0 <= j < kids@.len() ==> #[trigger] kids@[j] as int != i);
                        assert(post_loop.tasks@[i] == mid.tasks@[i]);
                    }
                }
                assert(post_clear.tasks@[i].status == post_loop.tasks@[i].status);
            }
            assert(forall|j: int| 0 <= j < kids@.len() ==> #[trigger] kids@[j] as int != idg);
            assert(post_loop.tasks@[idg] == mid.tasks@[idg]);
            assert(ftid == old(self).tasks@[idg].fd_table@);
            assert(mid2.files@ == old(self).files@);
            assert forall|h: int| 0 <= h < old(self).files@.len() implies (
            #[trigger] self.files@[h]).refs == drained(
                old(self).files@[h].refs,
                handle_count(old(self).tasks@[idg].fd_table@, h as usize),
            ) by {
                assert(post_clear.files@[h].refs == drained(
                    mid2.files@[h].refs,
                    handle_count(ftid, h as usize),
                ));
            }
        }
    }
    /// Reports the current task's status (it is running, being current),
    /// a copy of its syscall counters, and its start time.
    pub fn get_current_task(&self) -> (r: (TaskStatus, Vec<u32>, usize))
        requires
            self.wf(),
            self.has_current(),
        ensures
            r.0 == TaskStatus::Running,
            r.1@ == self.cur_task().syscall_times@,
            r.2 == self.cur_task().start_time,
    {
        let id = self.current.unwrap();
        let counts = clone_counters(&self.tasks[id].syscall_times);
        (TaskStatus::Running, counts, self.tasks[id].start_time)
    }

    /// Bumps the current task's invocation counter for one syscall id.
    pub fn inc_syscall_times(&mut self, syscall_id: usize)
        requires
            old(self).wf(),
            old(self).has_current(),
            syscall_id < MAX_SYSCALL_NUM,
            old(self).cur_task().syscall_times@[syscall_id as int] < u32::MAX,
        ensures
            final(self).wf(),
            final(self).tasks@.len() == old(self).tasks@.len(),
            final(self).current == old(self).current,
            final(self).ready@ == old(self).ready@,
            final(self).cur_task().syscall_times@ == old(
                self,
            ).cur_task().syscall_times@.update(
                syscall_id as int,
                (old(self).cur_task().syscall_times@[syscall_id as int] + 1) as u32,
            ),
            tcb_eq_except_counts(old(self).cur_task(), final(self).cur_task()),
            forall|i: int|
                0 <= i < old(self).tasks@.len() && i != old(self).cur() ==> final(self).tasks@[i]
                    == old(self).tasks@[i],
            files_fs_eq(*old(self), *final(self)),
    {
        let id = self.current.unwrap();
        let t = &mut self.tasks[id];
        let c = t.syscall_times[syscall_id];
        t.syscall_times[syscall_id] = c + 1;
    }

    /// Applies the page-level `mmap` policy to the current task's address
    /// space: all-or-nothing mapping of the rounded range, `-1` on any
    /// already-mapped page.
    pub fn mmap(&mut self, start: usize, len: usize, port: usize) -> (r: isize)
        requires
            old(self).wf(),
            old(self).has_current(),
            0 < port <= 7,
            start + len + crate::mem::PAGE_SIZE - 1 <= usize::MAX,
        ensures
            final(self).wf(),
            r == 0 || r == -1,
            (r == 0) <==> (forall|v: int|
                crate::mem::spec_vpn_floor(start as int) <= v < crate::mem::spec_vpn_ceil(
                    start as int + len,
                ) ==> !old(self).cur_task().memory_set.is_mapped(v)),
            r == 0 ==> final(self).cur_task().memory_set.page_map() == old(
                self,
            ).cur_task().memory_set.page_map().union_prefer_right(
                crate::mem::range_map(
                    crate::mem::spec_vpn_floor(start as int),
                    crate::mem::spec_vpn_ceil(start as int + len),
                    crate::mem::perm_of_port(port as int),
                ),
            ),
            r == -1 ==> final(self).tasks@ == old(self).tasks@,
            tcb_eq_except_mem(old(self).cur_task(), final(self).cur_task()),
            final(self).tasks@.len() == old(self).tasks@.len(),
            final(self).current == old(self).current,
            final(self).ready@ == old(self).ready@,
            forall|i: int|
                0 <= i < old(self).tasks@.len() && i != old(self).cur() ==> final(self).tasks@[i]
                    == old(self).tasks@[i],
            files_fs_eq(*old(self), *final(self)),
    {
        let id = self.current.unwrap();
        let t = &mut self.tasks[id];
        let r = t.memory_set.mmap(start, len, port);
        proof {
            if r == -1 {
                assert(final(self).tasks@ =~= old(self).tasks@);
            }
        }
        r
    }

    /// Applies the page-level `munmap` policy to the current task's
    /// address space: all-or-nothing unmapping of the rounded range, `-1`
    /// on any unmapped page.
    pub fn munmap(&mut self, start: usize, len: usize) -> (r: isize)
        requires
            old(self).wf(),
            old(self).has_current(),
            start + len + crate::mem::PAGE_SIZE - 1 <= usize::MAX,
        ensures
            final(self).wf(),
            r == 0 || r == -1,
            (r == 0) <==> (forall|v: int|
                crate::mem::spec_vpn_floor(start as int) <= v < crate::mem::spec_vpn_ceil(
                    start as int + len,
                ) ==> old(self).cur_task().memory_set.is_mapped(v)),
            r == 0 ==> final(self).cur_task().memory_set.page_map() == old(
                self,
            ).cur_task().memory_set.page_map().remove_keys(
                crate::mem::range_set(
                    crate::mem::spec_vpn_floor(start as int),
                    crate::mem::spec_vpn_ceil(start as int + len),
                ),
            ),
            r == -1 ==> final(self).tasks@ == old(self).tasks@,
            tcb_eq_except_mem(old(self).cur_task(), final(self).cur_task()),
            final(self).tasks@.len() == old(self).tasks@.len(),
            final(self).current == old(self).current,
            final(self).ready@ == old(self).ready@,
            forall|i: int|
                0 <= i < old(self).tasks@.len() && i != old(self).cur() ==> final(self).tasks@[i]
                    == old(self).tasks@[i],
            files_fs_eq(*old(self), *final(self)),
    {
        let id = self.current.unwrap();
        let t = &mut self.tasks[id];
        let r = t.memory_set.munmap(start, len);
        proof {
            if r == -1 {
                assert(final(self).tasks@ =~= old(self).tasks@);
            }
        }
        r
    }

    /// Moves the current task's program break by a signed delta.  Returns
    /// the old break, or `None` when the move would drop the break below
    /// the heap bottom or beyond the address range the break may occupy.
    pub fn change_program_brk(&mut self, size: i32) -> (r: Option<usize>)
        requires
            old(self).wf(),
            old(self).has_current(),
        ensures
            final(self).wf(),
            ({
                let t = old(self).cur_task();
                let nb = t.program_brk + size;
                &&& (r.is_some() <==> t.heap_bottom <= nb <= usize::MAX / 2)
                &&& (r.is_some() ==> r.unwrap() == t.program_brk && final(self).cur_task().program_brk == nb && final(self).cur_task().heap_bottom
                    == t.heap_bottom)
                &&& (r.is_none() ==> final(self).tasks@ == old(self).tasks@)
            }),
            final(self).tasks@.len() == old(self).tasks@.len(),
            final(self).current == old(self).current,
            final(self).ready@ == old(self).ready@,
            forall|i: int|
                0 <= i < old(self).tasks@.len() && i != old(self).cur() ==> final(self).tasks@[i]
                    == old(self).tasks@[i],
            files_fs_eq(*old(self), *final(self)),
    {
        let id = self.current.unwrap();
        let t = &mut self.tasks[id];
        let old_brk = t.program_brk;
        let hb = t.heap_bottom;
        if size >= 0 {
            let d = size as usize;
            if d > usize::MAX / 2 - old_brk {
                return None;
            }
            t.program_brk = old_brk + d;
            Some(old_brk)
        } else {
            let d = (-(size as i64)) as usize;
            if d > old_brk {
                return None;
            }
            let nb = old_brk - d;
            if nb < hb {
                return None;
            }
            t.program_brk = nb;
            Some(old_brk)
        }
    }
}

/// A zeroed syscall-counter table of the full size.
pub fn zeroed_counters() -> (r: Vec<u32>)
    ensures
        r@.len() == MAX_SYSCALL_NUM,
        forall|i: int| 0 <= i < r@.len() ==> r@[i] == 0u32,
{
    let mut v: Vec<u32> = Vec::new();
    let mut i: usize = 0;
    while i < MAX_SYSCALL_NUM
        invariant
            0 <= i <= MAX_SYSCALL_NUM,
            v@.len() == i,
            forall|j: int| 0 <= j < i ==> v@[j] == 0u32,
        decreases MAX_SYSCALL_NUM - i,
    {
        v.push(0);
        i += 1;
    }
    v
}

/// An element-for-element copy of a handle list.
pub fn clone_handles(v: &Vec<usize>) -> (r: Vec<usize>)
    ensures
        r@ == v@,
{
    let n = v.len();
    let mut out: Vec<usize> = Vec::new();
    let mut i: usize = 0;
    while i < n
        invariant
            n == v@.len(),
            0 <= i <= n,
            out@ == v@.take(i as int),
        decreases n - i,
    {
        out.push(v[i]);
        proof {
            assert(out@ =~= v@.take(i + 1));
        }
        i += 1;
    }
    proof {
        assert(v@.take(n as int) =~= v@);
    }
    out
}

/// An element-for-element copy of a counter table.
pub fn clone_counters(v: &Vec<u32>) -> (r: Vec<u32>)
    ensures
        r@ == v@,
{
    let n = v.len();
    let mut out: Vec<u32> = Vec::new();
    let mut i: usize = 0;
    while i < n
        invariant
            n == v@.len(),
            0 <= i <= n,
            out@ == v@.take(i as int),
        decreases n - i,
    {
        out.push(v[i]);
        proof {
            assert(out@ =~= v@.take(i + 1));
        }
        i += 1;
    }
    proof {
        assert(v@.take(n as int) =~= v@);
    }
    out
}

} // verus!

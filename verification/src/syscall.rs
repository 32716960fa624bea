//! The syscall adapter layer: thin functions that validate raw syscall
//! arguments against the calling task's state, perform the minimal
//! mutation or delegate to the scheduling, memory and file components,
//! and report `0`/`-1` (or a payload) back.
//!
//! User pointers are marshalled by an outside collaborator; the adapters
//! here take and return the plain values those pointers carry.

use vstd::prelude::*;
use crate::kernel::drained;
use crate::kernel::files_fs_eq;
use crate::kernel::files_eq_except_refs;
use crate::kernel::handle_count;
use crate::kernel::tcb_eq_except_mem;
use crate::kernel::tcb_eq_except_sched_links;
use crate::kernel::Kernel;
use crate::kernel::IDLE_PID;
use crate::mem::PAGE_SIZE;
use crate::mem::perm_of_port;
use crate::mem::range_map;
use crate::mem::range_set;
use crate::mem::spec_vpn_ceil;
use crate::mem::spec_vpn_floor;
use crate::task::TaskStatus;

verus! {

/// Seconds and microseconds since boot, as `get_time` reports them.
#[derive(Clone, Copy, Debug)]
pub struct TimeVal {
    pub sec: usize,
    pub usec: usize,
}

/// What `task_info` reports: the task's status, its per-syscall
/// invocation counts, and its running time in milliseconds.
pub struct TaskInfo {
    /// Task status in its life cycle.
    pub status: TaskStatus,
    /// The number of times the task invoked each syscall.
    pub syscall_times: Vec<u32>,
    /// Total running time of the task, in milliseconds.
    pub time: usize,
}

/// Whole milliseconds in a microsecond clock reading.
pub open spec fn ms_since_boot(us: int) -> int {
    us / 1000
}

/// Computes the millisecond form of a microsecond clock reading.
pub fn ms_of_us(us: usize) -> (r: usize)
    ensures
        r == ms_since_boot(us as int),
{
    us / 1000
}

/// A legal `mmap` permission argument: some of the low three bits, and
/// nothing else.
pub open spec fn port_valid(port: int) -> bool {
    1 <= port <= 7
}

impl Kernel {
    /// Exits the current task with the given code and runs the next ready
    /// task.  The root exiting would end all user computation and is a
    /// fatal kernel condition, excluded here; for every other task this
    /// records the code, turns the task into a zombie, reparents its
    /// children to the root, recycles its address space and descriptor
    /// table, and dispatches the head of the ready queue.
    pub fn sys_exit(&mut self, exit_code: i32)
        requires
            old(self).wf(),
            old(self).has_current(),
            old(self).current.unwrap() != IDLE_PID,
        ensures
            final(self).wf(),
            ({
                let id = old(self).current.unwrap();
                let kids = old(self).tasks@[id as int].children@;
                &&& final(self).tasks@.len() == old(self).tasks@.len()
                &&& final(self).tasks@[id as int].status == TaskStatus::Zombie
                &&& final(self).tasks@[id as int].exit_code == exit_code
                &&& final(self).tasks@[id as int].children@.len() == 0
                &&& final(self).tasks@[id as int].memory_set.page_map() == Map::<
                    int,
                    u8,
                >::empty()
                &&& final(self).tasks@[id as int].fd_table@.len() == 0
                &&& final(self).tasks@[IDLE_PID as int].children@ == old(
                    self,
                ).tasks@[IDLE_PID as int].children@ + kids
                &&& forall|k: int|
                    0 <= k < kids.len() ==> final(self).tasks@[#[trigger] kids[k] as int].parent
                        == Some(IDLE_PID)
                &&& (old(self).ready@.len() > 0 ==> final(self).current == Some(
                    old(self).ready@[0],
                ) && final(self).ready@ == old(self).ready@.skip(1) && final(self).tasks@[old(
                    self,
                ).ready@[0] as int].status == TaskStatus::Running)
                &&& (old(self).ready@.len() == 0 ==> final(self).current.is_none())
                &&& (forall|i: int|
                    0 <= i < old(self).tasks@.len() && i != id ==> tcb_eq_except_sched_links(
                        old(self).tasks@[i],
                        #[trigger] final(self).tasks@[i],
                    ))
                &&& (forall|i: int|
                    0 <= i < old(self).tasks@.len() && i != id && i != IDLE_PID ==> (
                    #[trigger] final(self).tasks@[i]).children@ == old(self).tasks@[i].children@)
                &&& (forall|i: int|
                    0 <= i < old(self).tasks@.len() && (forall|j: int|
                        0 <= j < kids.len() ==> #[trigger] kids[j] as int != i) ==> (
                    #[trigger] final(self).tasks@[i]).parent == old(self).tasks@[i].parent)
                &&& (forall|i: int|
                    0 <= i < old(self).tasks@.len() && i != id && !(old(self).ready@.len() > 0
                        && i == old(self).ready@[0] as int) ==> (
                    #[trigger] final(self).tasks@[i]).status == old(self).tasks@[i].status)
                &&& (forall|h: int|
                    0 <= h < old(self).files@.len() ==> (#[trigger] final(self).files@[h]).refs
                        == drained(
                        old(self).files@[h].refs,
                        handle_count(old(self).tasks@[id as int].fd_table@, h as usize),
                    ))
            }),
            files_eq_except_refs(old(self).files@, final(self).files@),
            final(self).fs.inodes@ == old(self).fs.inodes@,
            final(self).fs.dents@ == old(self).fs.dents@,
            final(self).now_us == old(self).now_us,
    {
        self.exit_current_and_run_next(exit_code);
    }

    /// The current task gives the core up voluntarily: it returns to the
    /// ready queue's tail, the next ready task runs, and `0` is reported.
    pub fn sys_yield(&mut self) -> (r: isize)
        requires
            old(self).wf(),
            old(self).has_current(),
        ensures
            final(self).wf(),
            r == 0,
            ({
                let id = old(self).current.unwrap();
                let q = old(self).ready@.push(id);
                &&& final(self).current == Some(q[0])
                &&& final(self).ready@ == q.skip(1)
                &&& final(self).tasks@.len() == old(self).tasks@.len()
                &&& final(self).tasks@[q[0] as int].status == TaskStatus::Running
                &&& (id != q[0] ==> final(self).tasks@[id as int].status == TaskStatus::Ready)
            }),
            files_fs_eq(*old(self), *final(self)),
    {
        self.suspend_current_and_run_next();
        0
    }

    /// Reports the clock as seconds plus microseconds since boot.  The
    /// timezone argument is accepted and ignored, as the ABI provides.
    pub fn sys_get_time(&self, _tz: usize) -> (r: (isize, TimeVal))
        requires
            self.wf(),
        ensures
            r.0 == 0,
            r.1.sec == self.now_us / 1000000,
            r.1.usec == self.now_us % 1000000,
    {
        let us = self.now_us;
        let tv = TimeVal { sec: us / 1000000, usec: us % 1000000 };
        (0, tv)
    }

    /// Reports the current task's status, its syscall invocation counts
    /// and its elapsed running time in milliseconds.
    pub fn sys_task_info(&self) -> (r: (isize, TaskInfo))
        requires
            self.wf(),
            self.has_current(),
            self.cur_task().start_time <= self.now_us,
        ensures
            r.0 == 0,
            r.1.status == TaskStatus::Running,
            r.1.syscall_times@ == self.cur_task().syscall_times@,
            r.1.time == ms_since_boot(self.now_us as int) - ms_since_boot(
                self.cur_task().start_time as int,
            ),
    {
        let (status, syscall_times, start_time) = self.get_current_task();
        proof {
            vstd::arithmetic::div_mod::lemma_div_is_ordered(
                start_time as int,
                self.now_us as int,
                1000,
            );
        }
        let now_ms = ms_of_us(self.now_us);
        let start_ms = ms_of_us(start_time);
        let info = TaskInfo { status, syscall_times, time: now_ms - start_ms };
        (0, info)
    }

    /// `mmap` syscall: rejects a start address off a page boundary, an
    /// empty permission set, or permission bits outside the low three;
    /// otherwise applies the all-or-nothing page-mapping policy to the
    /// current task's address space.
    pub fn sys_mmap(&mut self, start: usize, len: usize, port: usize) -> (r: isize)
        requires
            old(self).wf(),
            old(self).has_current(),
            start + len + PAGE_SIZE - 1 <= usize::MAX,
        ensures
            final(self).wf(),
            r == 0 || r == -1,
            (r == 0) <==> (start % PAGE_SIZE == 0 && port_valid(port as int) && (forall|v: int|
                spec_vpn_floor(start as int) <= v < spec_vpn_ceil(start as int + len)
                    ==> !old(self).cur_task().memory_set.is_mapped(v))),
            r == 0 ==> final(self).cur_task().memory_set.page_map() == old(
                self,
            ).cur_task().memory_set.page_map().union_prefer_right(
                range_map(
                    spec_vpn_floor(start as int),
                    spec_vpn_ceil(start as int + len),
                    perm_of_port(port as int),
                ),
            ),
            r == -1 ==> final(self).tasks@ == old(self).tasks@,
            tcb_eq_except_mem(old(self).cur_task(), final(self).cur_task()),
            final(self).tasks@.len() == old(self).tasks@.len(),
            final(self).current == old(self).current,
            final(self).ready@ == old(self).ready@,
            forall|i: int|
                0 <= i < old(self).tasks@.len() && i != old(self).cur() ==> final(self).tasks@[i]
                    == old(self).tasks@[i],
            files_fs_eq(*old(self), *final(self)),
    {
        if start % PAGE_SIZE != 0 || port == 0 || port > 7 {
            return -1;
        }
        self.mmap(start, len, port)
    }

    /// `munmap` syscall: rejects a start address off a page boundary;
    /// otherwise applies the all-or-nothing page-unmapping policy to the
    /// current task's address space.
    pub fn sys_munmap(&mut self, start: usize, len: usize) -> (r: isize)
        requires
            old(self).wf(),
            old(self).has_current(),
            start + len + PAGE_SIZE - 1 <= usize::MAX,
        ensures
            final(self).wf(),
            r == 0 || r == -1,
            (r == 0) <==> (start % PAGE_SIZE == 0 && (forall|v: int|
                spec_vpn_floor(start as int) <= v < spec_vpn_ceil(start as int + len) ==> old(
                    self,
                ).cur_task().memory_set.is_mapped(v))),
            r == 0 ==> final(self).cur_task().memory_set.page_map() == old(
                self,
            ).cur_task().memory_set.page_map().remove_keys(
                range_set(spec_vpn_floor(start as int), spec_vpn_ceil(start as int + len)),
            ),
            r == -1 ==> final(self).tasks@ == old(self).tasks@,
            tcb_eq_except_mem(old(self).cur_task(), final(self).cur_task()),
            final(self).tasks@.len() == old(self).tasks@.len(),
            final(self).current == old(self).current,
            final(self).ready@ == old(self).ready@,
            forall|i: int|
                0 <= i < old(self).tasks@.len() && i != old(self).cur() ==> final(self).tasks@[i]
                    == old(self).tasks@[i],
            files_fs_eq(*old(self), *final(self)),
    {
        if start % PAGE_SIZE != 0 {
            return -1;
        }
        self.munmap(start, len)
    }

    /// `sbrk` syscall: moves the current task's data-segment break by a
    /// signed delta, reporting the old break, or `-1` when the move would
    /// leave the range the break may occupy.
    pub fn sys_sbrk(&mut self, size: i32) -> (r: isize)
        requires
            old(self).wf(),
            old(self).has_current(),
        ensures
            final(self).wf(),
            ({
                let t = old(self).cur_task();
                let nb = t.program_brk + size;
                &&& ((r == -1) <==> !(t.heap_bottom <= nb <= usize::MAX / 2))
                &&& (r != -1 ==> r == t.program_brk as isize && final(self).cur_task().program_brk == nb)
                &&& (r == -1 ==> final(self).tasks@ == old(self).tasks@)
            }),
            final(self).tasks@.len() == old(self).tasks@.len(),
            final(self).current == old(self).current,
            final(self).ready@ == old(self).ready@,
            files_fs_eq(*old(self), *final(self)),
    {
        let moved = self.change_program_brk(size);
        match moved {
            Some(old_brk) => old_brk as isize,
            None => -1,
        }
    }
    /// `write` syscall: `-1` and no effect when the descriptor is out of
    /// range, empty, or not writable; otherwise the whole buffer is
    /// written into the stream at its cursor (zero-filling any gap beyond
    /// the end), the cursor advances past it, and the byte count written
    /// is reported.
    pub fn sys_write(&mut self, fd: usize, buf: &Vec<u8>) -> (r: isize)
        requires
            old(self).wf(),
            old(self).has_current(),
            buf@.len() <= usize::MAX / 2,
            old(self).fd_ok(fd as int) ==> old(self).fd_file(fd as int).offset + buf@.len()
                <= usize::MAX,
        ensures
            final(self).wf(),
            (r == -1) <==> !(old(self).fd_ok(fd as int) && old(self).fd_file(
                fd as int,
            ).writable),
            r == -1 ==> final(self).tasks@ == old(self).tasks@ && files_fs_eq(
                *old(self),
                *final(self),
            ),
            r != -1 ==> ({
                let h = old(self).fd_handle(fd as int);
                let of = old(self).fd_file(fd as int);
                let ino = of.inode as int;
                &&& r == buf@.len()
                &&& final(self).fs.inodes@[ino].data@ == crate::fs::written(
                    old(self).fs.inodes@[ino].data@,
                    of.offset as int,
                    buf@,
                )
                &&& final(self).fs.inodes@[ino].nlink == old(self).fs.inodes@[ino].nlink
                &&& final(self).fs.inodes@.len() == old(self).fs.inodes@.len()
                &&& (forall|x: int|
                    0 <= x < old(self).fs.inodes@.len() && x != ino ==> final(self).fs.inodes@[x]
                        == old(self).fs.inodes@[x])
                &&& final(self).files@.len() == old(self).files@.len()
                &&& final(self).files@[h].offset == of.offset + buf@.len()
                &&& final(self).files@[h].refs == of.refs
                &&& final(self).files@[h].readable == of.readable
                &&& final(self).files@[h].writable == of.writable
                &&& final(self).files@[h].inode == of.inode
                &&& (forall|g: int|
                    0 <= g < old(self).files@.len() && g != h ==> final(self).files@[g] == old(
                        self,
                    ).files@[g])
                &&& final(self).fs.dents@ == old(self).fs.dents@
            }),
            final(self).tasks@ == old(self).tasks@,
            final(self).current == old(self).current,
            final(self).ready@ == old(self).ready@,
            final(self).now_us == old(self).now_us,
    {
        let id = self.current.unwrap();
        if fd >= self.tasks[id].fd_table.len() {
            return -1;
        }
        let slot = self.tasks[id].fd_table[fd];
        match slot {
            None => -1,
            Some(h) => {
                if !self.files[h].writable {
                    return -1;
                }
                let ino = self.files[h].inode;
                let off = self.files[h].offset;
                let m = buf.len();
                let old_len = self.fs.inodes[ino].data.len();
                let ghost data0 = self.fs.inodes@[ino as int].data@;
                let ghost base = crate::fs::write_base(data0, off as int);
                let mut nd: Vec<u8> = Vec::new();
                let pfx = if off < old_len {
                    off
                } else {
                    old_len
                };
                let mut i: usize = 0;
                while i < pfx
                    invariant
                        *self == *old(self),
                        ino < self.fs.inodes@.len(),
                        data0 == self.fs.inodes@[ino as int].data@,
                        old_len == data0.len(),
                        pfx <= old_len,
                        0 <= i <= pfx,
                        nd@ == data0.take(i as int),
                    decreases pfx - i,
                {
                    let b = self.fs.inodes[ino].data[i];
                    nd.push(b);
                    proof {
                        assert(nd@ =~= data0.take(i + 1));
                    }
                    i += 1;
                }
                proof {
                    if off < old_len {
                        assert(base == data0);
                        assert(nd@ =~= base.take(off as int));
                    } else {
                        assert(nd@ =~= base.take(nd@.len() as int));
                    }
                }
                while nd.len() < off
                    invariant
                        *self == *old(self),
                        ino < self.fs.inodes@.len(),
                        data0 == self.fs.inodes@[ino as int].data@,
                        old_len == data0.len(),
                        base == crate::fs::write_base(data0, off as int),
                        nd@.len() <= base.len(),
                        off <= base.len(),
                        nd@ == base.take(nd@.len() as int),
                        off < old_len ==> nd@.len() == off,
                        off >= old_len ==> old_len <= nd@.len() <= off,
                    decreases off - nd@.len(),
                {
                    proof {
                        assert(base[nd@.len() as int] == 0u8);
                    }
                    nd.push(0);
                    proof {
                        assert(nd@ =~= base.take(nd@.len() as int));
                    }
                }
                proof {
                    assert(nd@.len() == off);
                    assert(nd@ == base.take(off as int));
                }
                let mut j: usize = 0;
                while j < m
                    invariant
                        *self == *old(self),
                        m == buf@.len(),
                        0 <= j <= m,
                        nd@ == crate::fs::write_base(data0, off as int).take(off as int)
                            + buf@.take(j as int),
                    decreases m - j,
                {
                    nd.push(buf[j]);
                    proof {
                        assert(nd@ =~= crate::fs::write_base(data0, off as int).take(off as int)
                            + buf@.take(j + 1));
                    }
                    j += 1;
                }
                if off + m < old_len {
                    let mut k: usize = off + m;
                    while k < old_len
                        invariant
                            *self == *old(self),
                            ino < self.fs.inodes@.len(),
                            data0 == self.fs.inodes@[ino as int].data@,
                            old_len == data0.len(),
                            m == buf@.len(),
                            off + m <= k <= old_len,
                            nd@ == crate::fs::write_base(data0, off as int).take(off as int)
                                + buf@ + data0.subrange(off + m, k as int),
                        decreases old_len - k,
                    {
                        let b = self.fs.inodes[ino].data[k];
                        nd.push(b);
                        proof {
                            assert(nd@ =~= crate::fs::write_base(data0, off as int).take(
                                off as int,
                            ) + buf@ + data0.subrange(off + m, k + 1));
                        }
                        k += 1;
                    }
                }
                proof {
                    assert(nd@ =~= crate::fs::written(data0, off as int, buf@));
                }
                let node = &mut self.fs.inodes[ino];
                node.data = nd;
                let fe = &mut self.files[h];
                fe.offset = off + m;
                m as isize
            },
        }
    }

    /// `read` syscall: `-1` and no effect when the descriptor is out of
    /// range, empty, or not readable; otherwise up to `len` bytes are
    /// taken from the stream at its cursor (fewer when the stream ends
    /// first), the cursor advances past them, and the bytes with their
    /// count are reported.
    pub fn sys_read(&mut self, fd: usize, len: usize) -> (r: (isize, Vec<u8>))
        requires
            old(self).wf(),
            old(self).has_current(),
            len <= usize::MAX / 2,
        ensures
            final(self).wf(),
            (r.0 == -1) <==> !(old(self).fd_ok(fd as int) && old(self).fd_file(
                fd as int,
            ).readable),
            r.0 == -1 ==> final(self).tasks@ == old(self).tasks@ && files_fs_eq(
                *old(self),
                *final(self),
            ) && r.1@.len() == 0,
            r.0 != -1 ==> ({
                let h = old(self).fd_handle(fd as int);
                let of = old(self).fd_file(fd as int);
                let data = old(self).fs.inodes@[of.inode as int].data@;
                let start = if of.offset <= data.len() {
                    of.offset as int
                } else {
                    data.len() as int
                };
                let avail = data.len() - start;
                let cnt = if len <= avail {
                    len as int
                } else {
                    avail
                };
                &&& r.0 == cnt
                &&& r.1@ == data.subrange(start, start + cnt)
                &&& final(self).files@.len() == old(self).files@.len()
                &&& final(self).files@[h].offset == of.offset + cnt
                &&& final(self).files@[h].refs == of.refs
                &&& final(self).files@[h].readable == of.readable
                &&& final(self).files@[h].writable == of.writable
                &&& final(self).files@[h].inode == of.inode
                &&& (forall|g: int|
                    0 <= g < old(self).files@.len() && g != h ==> final(self).files@[g] == old(
                        self,
                    ).files@[g])
                &&& final(self).fs.inodes@ == old(self).fs.inodes@
                &&& final(self).fs.dents@ == old(self).fs.dents@
            }),
            final(self).tasks@ == old(self).tasks@,
            final(self).current == old(self).current,
            final(self).ready@ == old(self).ready@,
            final(self).now_us == old(self).now_us,
    {
        let id = self.current.unwrap();
        if fd >= self.tasks[id].fd_table.len() {
            return (-1, Vec::new());
        }
        let slot = self.tasks[id].fd_table[fd];
        match slot {
            None => (-1, Vec::new()),
            Some(h) => {
                if !self.files[h].readable {
                    return (-1, Vec::new());
                }
                let ino = self.files[h].inode;
                let off = self.files[h].offset;
                let dlen = self.fs.inodes[ino].data.len();
                let st = if off <= dlen {
                    off
                } else {
                    dlen
                };
                let avail = dlen - st;
                let cnt = if len <= avail {
                    len
                } else {
                    avail
                };
                let ghost data0 = self.fs.inodes@[ino as int].data@;
                let mut out: Vec<u8> = Vec::new();
                let mut i: usize = 0;
                while i < cnt
                    invariant
                        *self == *old(self),
                        ino < self.fs.inodes@.len(),
                        data0 == self.fs.inodes@[ino as int].data@,
                        dlen == data0.len(),
                        st + cnt <= data0.len(),
                        0 <= i <= cnt,
                        out@ == data0.subrange(st as int, st + i),
                    decreases cnt - i,
                {
                    let b = self.fs.inodes[ino].data[st + i];
                    out.push(b);
                    proof {
                        assert(out@ =~= data0.subrange(st as int, st + i + 1));
                    }
                    i += 1;
                }
                let fe = &mut self.files[h];
                fe.offset = off + cnt;
                (cnt as isize, out)
            },
        }
    }

    /// Whether `fd` is a usable descriptor of the current task: inside
    /// the table and pointing at an occupied slot.
    pub open spec fn fd_ok(self, fd: int) -> bool {
        &&& 0 <= fd < self.cur_task().fd_table@.len()
        &&& self.cur_task().fd_table@[fd].is_some()
    }

    /// The open-file handle a usable descriptor holds.
    pub open spec fn fd_handle(self, fd: int) -> int {
        self.cur_task().fd_table@[fd].unwrap() as int
    }

    /// The open-file entry a usable descriptor refers to.
    pub open spec fn fd_file(self, fd: int) -> crate::fs::OpenFile {
        self.files@[self.fd_handle(fd)]
    }

    /// `close` syscall: `-1` and no effect for an out-of-range or empty
    /// descriptor; otherwise the slot is cleared (lowering the handle's
    /// reference count by one) and `0` is reported.
    pub fn sys_close(&mut self, fd: usize) -> (r: isize)
        requires
            old(self).wf(),
            old(self).has_current(),
        ensures
            final(self).wf(),
            (r == -1) <==> !old(self).fd_ok(fd as int),
            r == -1 || r == 0,
            r == -1 ==> final(self).tasks@ == old(self).tasks@ && files_fs_eq(
                *old(self),
                *final(self),
            ),
            r == 0 ==> ({
                let h = old(self).fd_handle(fd as int);
                &&& final(self).cur_task().fd_table@ == old(self).cur_task().fd_table@.update(
                    fd as int,
                    None,
                )
                &&& tcb_eq_except_fd(old(self).cur_task(), final(self).cur_task())
                &&& final(self).files@.len() == old(self).files@.len()
                &&& final(self).files@[h].refs == (if old(self).files@[h].refs > 0 {
                    (old(self).files@[h].refs - 1) as usize
                } else {
                    0usize
                })
                &&& files_eq_except_refs(old(self).files@, final(self).files@)
                &&& forall|g: int|
                    0 <= g < old(self).files@.len() && g != h ==> final(self).files@[g] == old(
                        self,
                    ).files@[g]
            }),
            final(self).tasks@.len() == old(self).tasks@.len(),
            final(self).current == old(self).current,
            final(self).ready@ == old(self).ready@,
            forall|i: int|
                0 <= i < old(self).tasks@.len() && i != old(self).cur() ==> final(self).tasks@[i]
                    == old(self).tasks@[i],
            final(self).fs.inodes@ == old(self).fs.inodes@,
            final(self).fs.dents@ == old(self).fs.dents@,
            final(self).now_us == old(self).now_us,
    {
        let id = self.current.unwrap();
        if fd >= self.tasks[id].fd_table.len() {
            return -1;
        }
        let slot = self.tasks[id].fd_table[fd];
        match slot {
            None => -1,
            Some(h) => {
                let t = &mut self.tasks[id];
                t.fd_table[fd] = None;
                let fe = &mut self.files[h];
                if fe.refs > 0 {
                    fe.refs = fe.refs - 1;
                }
                0
            },
        }
    }

    /// `pipe` syscall: creates one in-kernel byte queue and binds two
    /// fresh descriptors to it, a read end and a write end, each in the
    /// lowest free slot at its allocation; reports `0` with the pair
    /// (the caller's marshalling layer stores them out as
    /// `[read_fd, write_fd]`).
    pub fn sys_pipe(&mut self) -> (r: (isize, usize, usize))
        requires
            old(self).wf(),
            old(self).has_current(),
            old(self).cur_task().fd_table@.len() < usize::MAX / 2,
        ensures
            final(self).wf(),
            r.0 == 0,
            ({
                let ft = old(self).cur_task().fd_table@;
                let ino = old(self).fs.inodes@.len() as usize;
                let hr = old(self).files@.len() as int;
                let hw = old(self).files@.len() + 1;
                &&& r.1 < r.2
                &&& r.1 < final(self).cur_task().fd_table@.len()
                &&& r.2 < final(self).cur_task().fd_table@.len()
                &&& final(self).cur_task().fd_table@[r.1 as int] == Some(hr as usize)
                &&& final(self).cur_task().fd_table@[r.2 as int] == Some(hw as usize)
                &&& (forall|j: int| 0 <= j < r.1 ==> (#[trigger] ft[j]).is_some())
                &&& (r.1 < ft.len() ==> ft[r.1 as int].is_none())
                &&& (forall|j: int|
                    0 <= j < r.2 && j != r.1 && j < ft.len() ==> (#[trigger] ft[j]).is_some())
                &&& (r.2 < ft.len() ==> ft[r.2 as int].is_none())
                &&& tcb_eq_except_fd(old(self).cur_task(), final(self).cur_task())
                &&& final(self).files@.len() == old(self).files@.len() + 2
                &&& (forall|g: int|
                    0 <= g < old(self).files@.len() ==> final(self).files@[g] == old(
                        self,
                    ).files@[g])
                &&& final(self).files@[hr] == (crate::fs::OpenFile {
                    refs: 1,
                    readable: true,
                    writable: false,
                    inode: ino,
                    offset: 0,
                })
                &&& final(self).files@[hw as int] == (crate::fs::OpenFile {
                    refs: 1,
                    readable: false,
                    writable: true,
                    inode: ino,
                    offset: 0,
                })
                &&& final(self).fs.inodes@.len() == old(self).fs.inodes@.len() + 1
                &&& (forall|x: int|
                    0 <= x < old(self).fs.inodes@.len() ==> final(self).fs.inodes@[x] == old(
                        self,
                    ).fs.inodes@[x])
                &&& final(self).fs.inodes@[ino as int].data@.len() == 0
                &&& final(self).fs.inodes@[ino as int].nlink == 0
                &&& final(self).fs.dents@ == old(self).fs.dents@
            }),
            final(self).tasks@.len() == old(self).tasks@.len(),
            final(self).current == old(self).current,
            final(self).ready@ == old(self).ready@,
            forall|i: int|
                0 <= i < old(self).tasks@.len() && i != old(self).cur() ==> final(self).tasks@[i]
                    == old(self).tasks@[i],
            final(self).now_us == old(self).now_us,
    {
        let id = self.current.unwrap();
        let ino = self.fs.inodes.len();
        self.fs.inodes.push(crate::fs::Inode { nlink: 0, data: Vec::new() });
        let hr = self.files.len();
        self.files.push(
            crate::fs::OpenFile { refs: 1, readable: true, writable: false, inode: ino, offset: 0 },
        );
        let hw = self.files.len();
        self.files.push(
            crate::fs::OpenFile { refs: 1, readable: false, writable: true, inode: ino, offset: 0 },
        );
        let t = &mut self.tasks[id];
        let ghost ft0 = t.fd_table@;
        let read_fd = alloc_fd(&mut t.fd_table);
        t.fd_table[read_fd] = Some(hr);
        let ghost ft1 = t.fd_table@;
        let write_fd = alloc_fd(&mut t.fd_table);
        t.fd_table[write_fd] = Some(hw);
        proof {
            assert forall|j: int|
                0 <= j < write_fd && j != read_fd && j < ft0.len() implies (
            #[trigger] ft0[j]).is_some() by {
                assert(ft1[j].is_some());
                assert(ft1[j] == ft0[j]);
            }
            if write_fd < read_fd {
                assert(ft1[write_fd as int].is_some());
            }
            if (write_fd as int) < ft0.len() {
                assert(ft1[write_fd as int] == ft0[write_fd as int]);
            }
        }
        (0, read_fd, write_fd)
    }

    /// `dup` syscall: `-1` and no effect for an out-of-range or empty
    /// descriptor; otherwise a new reference-counted alias of the handle
    /// is placed in the lowest free slot, whose index is reported.
    pub fn sys_dup(&mut self, fd: usize) -> (r: isize)
        requires
            old(self).wf(),
            old(self).has_current(),
            old(self).fd_ok(fd as int) ==> old(self).fd_file(fd as int).refs < usize::MAX,
            old(self).cur_task().fd_table@.len() < usize::MAX / 2,
        ensures
            final(self).wf(),
            r == -1 || r >= 0,
            (r == -1) <==> !old(self).fd_ok(fd as int),
            r == -1 ==> final(self).tasks@ == old(self).tasks@ && files_fs_eq(
                *old(self),
                *final(self),
            ),
            r >= 0 ==> ({
                let ft = old(self).cur_task().fd_table@;
                let h = old(self).fd_handle(fd as int);
                &&& (forall|j: int| 0 <= j < r ==> (#[trigger] ft[j]).is_some())
                &&& r <= ft.len()
                &&& (r < ft.len() ==> ft[r as int].is_none())
                &&& final(self).cur_task().fd_table@.len() == (if r < ft.len() {
                    ft.len()
                } else {
                    ft.len() + 1
                })
                &&& final(self).cur_task().fd_table@[r as int] == Some(
                    old(self).fd_handle(fd as int) as usize,
                )
                &&& (forall|j: int|
                    0 <= j < ft.len() && j != r ==> final(self).cur_task().fd_table@[j] == ft[j])
                &&& tcb_eq_except_fd(old(self).cur_task(), final(self).cur_task())
                &&& final(self).files@.len() == old(self).files@.len()
                &&& final(self).files@[h].refs == old(self).files@[h].refs + 1
                &&& files_eq_except_refs(old(self).files@, final(self).files@)
                &&& forall|g: int|
                    0 <= g < old(self).files@.len() && g != h ==> final(self).files@[g] == old(
                        self,
                    ).files@[g]
            }),
            final(self).tasks@.len() == old(self).tasks@.len(),
            final(self).current == old(self).current,
            final(self).ready@ == old(self).ready@,
            forall|i: int|
                0 <= i < old(self).tasks@.len() && i != old(self).cur() ==> final(self).tasks@[i]
                    == old(self).tasks@[i],
            final(self).fs.inodes@ == old(self).fs.inodes@,
            final(self).fs.dents@ == old(self).fs.dents@,
            final(self).now_us == old(self).now_us,
    {
        let id = self.current.unwrap();
        if fd >= self.tasks[id].fd_table.len() {
            return -1;
        }
        let slot = self.tasks[id].fd_table[fd];
        match slot {
            None => -1,
            Some(h) => {
                let t = &mut self.tasks[id];
                let new_fd = alloc_fd(&mut t.fd_table);
                t.fd_table[new_fd] = Some(h);
                let fe = &mut self.files[h];
                fe.refs = fe.refs + 1;
                new_fd as isize
            },
        }
    }

    /// `fstat` syscall: `-1` for an out-of-range or empty descriptor;
    /// otherwise reports device id zero, the stream's inode id, the
    /// regular-file mode and the inode's link count.
    pub fn sys_fstat(&self, fd: usize) -> (r: (isize, crate::fs::Stat))
        requires
            self.wf(),
            self.has_current(),
        ensures
            (r.0 == -1) <==> !self.fd_ok(fd as int),
            r.0 == -1 || r.0 == 0,
            r.0 == 0 ==> ({
                let of = self.fd_file(fd as int);
                &&& r.1.dev == 0
                &&& r.1.ino == of.inode as u64
                &&& r.1.mode == crate::fs::STAT_MODE_FILE
                &&& r.1.nlink == self.fs.inodes@[of.inode as int].nlink
                &&& (forall|i: int| 0 <= i < 7 ==> r.1.pad@[i] == 0u64)
            }),
    {
        let id = self.current.unwrap();
        let zero = crate::fs::Stat {
            dev: 0,
            ino: 0,
            mode: 0,
            nlink: 0,
            pad: [0u64, 0u64, 0u64, 0u64, 0u64, 0u64, 0u64],
        };
        if fd >= self.tasks[id].fd_table.len() {
            return (-1, zero);
        }
        let slot = self.tasks[id].fd_table[fd];
        match slot {
            None => (-1, zero),
            Some(h) => {
                let ino = self.files[h].inode;
                let st = crate::fs::Stat {
                    dev: 0,
                    ino: ino as u64,
                    mode: crate::fs::STAT_MODE_FILE,
                    nlink: self.fs.inodes[ino].nlink,
                    pad: [0u64, 0u64, 0u64, 0u64, 0u64, 0u64, 0u64],
                };
                (0, st)
            },
        }
    }
}

/// A legal `open` flags word: the two access bits and the create and
/// truncate bits, and nothing else.
pub open spec fn open_flags_valid(flags: int) -> bool {
    flags < 2048 && flags % 512 < 4
}

/// Whether the create bit of a flags word is set.
pub open spec fn flag_create(flags: int) -> bool {
    (flags / 512) % 2 == 1
}

/// Whether the truncate bit of a flags word is set.
pub open spec fn flag_trunc(flags: int) -> bool {
    (flags / 1024) % 2 == 1
}

/// Read capability granted by a flags word: everything but write-only.
pub open spec fn open_readable(flags: int) -> bool {
    flags % 2 == 0
}

/// Write capability granted by a flags word: anything but plain read.
pub open spec fn open_writable(flags: int) -> bool {
    flags != 0
}

impl Kernel {
    /// `open` syscall: resolves the path in the file store, honouring the
    /// create and truncate flags, allocates a new reference-counted
    /// open-file entry with the capabilities the flags grant, and places
    /// it in the current task's lowest free descriptor slot, whose index
    /// is reported.  Reports `-1`, touching nothing, when the path is
    /// absent and the create flag is not given.
    pub fn sys_open(&mut self, path: &Vec<u8>, flags: u32) -> (r: isize)
        requires
            old(self).wf(),
            old(self).has_current(),
            open_flags_valid(flags as int),
            old(self).cur_task().fd_table@.len() < usize::MAX / 2,
        ensures
            final(self).wf(),
            (r == -1) <==> (!flag_create(flags as int) && !old(self).fs.dir_has(path@)),
            r == -1 ==> final(self).tasks@ == old(self).tasks@ && files_fs_eq(
                *old(self),
                *final(self),
            ),
            r == -1 || r >= 0,
            r >= 0 ==> ({
                let ft = old(self).cur_task().fd_table@;
                let h = old(self).files@.len();
                &&& 0 <= r <= ft.len()
                &&& (forall|j: int| 0 <= j < r ==> (#[trigger] ft[j]).is_some())
                &&& (r < ft.len() ==> ft[r as int].is_none())
                &&& final(self).cur_task().fd_table@[r as int] == Some(h as usize)
                &&& final(self).cur_task().fd_table@.len() == (if r < ft.len() {
                    ft.len()
                } else {
                    ft.len() + 1
                })
                &&& (forall|j: int|
                    0 <= j < ft.len() && j != r ==> final(self).cur_task().fd_table@[j] == ft[j])
                &&& tcb_eq_except_fd(old(self).cur_task(), final(self).cur_task())
                &&& final(self).files@.len() == old(self).files@.len() + 1
                &&& (forall|g: int|
                    0 <= g < old(self).files@.len() ==> final(self).files@[g] == old(
                        self,
                    ).files@[g])
                &&& final(self).files@[h as int].refs == 1
                &&& final(self).files@[h as int].readable == open_readable(flags as int)
                &&& final(self).files@[h as int].writable == open_writable(flags as int)
                &&& final(self).files@[h as int].offset == 0
                &&& (old(self).fs.dir_has(path@) ==> ({
                    let ino = old(self).fs.dir_ino(path@);
                    &&& final(self).files@[h as int].inode == ino
                    &&& final(self).fs.dents@ == old(self).fs.dents@
                    &&& final(self).fs.inodes@.len() == old(self).fs.inodes@.len()
                    &&& ((flag_create(flags as int) || flag_trunc(flags as int)) ==> final(self).fs.inodes@[ino as int].data@.len() == 0 && final(self).fs.inodes@[ino as int].nlink == old(self).fs.inodes@[ino as int].nlink
                        && (forall|x: int|
                        0 <= x < old(self).fs.inodes@.len() && x != ino ==> final(self).fs.inodes@[x] == old(self).fs.inodes@[x]))
                    &&& (!(flag_create(flags as int) || flag_trunc(flags as int)) ==> final(self).fs.inodes@ == old(self).fs.inodes@)
                }))
                &&& (!old(self).fs.dir_has(path@) ==> ({
                    let ino = old(self).fs.inodes@.len();
                    &&& final(self).files@[h as int].inode == ino
                    &&& final(self).fs.inodes@.len() == ino + 1
                    &&& (forall|x: int|
                        0 <= x < ino ==> final(self).fs.inodes@[x] == old(self).fs.inodes@[x])
                    &&& final(self).fs.inodes@[ino as int].nlink == 1
                    &&& final(self).fs.inodes@[ino as int].data@.len() == 0
                    &&& final(self).fs.dents@.len() == old(self).fs.dents@.len() + 1
                    &&& (forall|d: int|
                        0 <= d < old(self).fs.dents@.len() ==> final(self).fs.dents@[d] == old(
                            self,
                        ).fs.dents@[d])
                    &&& final(self).fs.dents@.last().name@ == path@
                    &&& final(self).fs.dents@.last().inode == ino
                }))
            }),
            final(self).tasks@.len() == old(self).tasks@.len(),
            final(self).current == old(self).current,
            final(self).ready@ == old(self).ready@,
            forall|i: int|
                0 <= i < old(self).tasks@.len() && i != old(self).cur() ==> final(self).tasks@[i]
                    == old(self).tasks@[i],
            final(self).now_us == old(self).now_us,
    {
        let id = self.current.unwrap();
        let found = self.fs.lookup(path);
        let create = (flags / 512) % 2 == 1;
        let trunc = (flags / 1024) % 2 == 1;
        let ino: usize;
        match found {
            Some(i) => {
                if create || trunc {
                    let node = &mut self.fs.inodes[i];
                    node.data = Vec::new();
                }
                ino = i;
            },
            None => {
                if !create {
                    return -1;
                }
                let n = self.fs.inodes.len();
                self.fs.inodes.push(crate::fs::Inode { nlink: 1, data: Vec::new() });
                self.fs.dents.push(
                    crate::fs::DirEnt { name: crate::fs::clone_bytes(path), inode: n },
                );
                ino = n;
            },
        }
        let readable = flags % 2 == 0;
        let writable = flags != 0;
        let h = self.files.len();
        self.files.push(
            crate::fs::OpenFile { refs: 1, readable, writable, inode: ino, offset: 0 },
        );
        let t = &mut self.tasks[id];
        let fd = alloc_fd(&mut t.fd_table);
        t.fd_table[fd] = Some(h);
        fd as isize
    }

    /// `linkat` syscall: makes `new_name` a second hard link to the inode
    /// `old_name` resolves to, raising its link count by one.  Reports
    /// `-1`, touching nothing, when either path is empty, the two paths
    /// are identical, `old_name` does not resolve, or `new_name` already
    /// exists.
    pub fn sys_linkat(&mut self, old_name: &Vec<u8>, new_name: &Vec<u8>) -> (r: isize)
        requires
            old(self).wf(),
            old(self).fs.dir_has(old_name@) ==> old(self).fs.inodes@[old(self).fs.dir_ino(
                old_name@,
            ) as int].nlink < u32::MAX,
        ensures
            final(self).wf(),
            r == -1 || r == 0,
            (r == 0) <==> (old_name@.len() > 0 && new_name@.len() > 0 && old_name@ != new_name@
                && old(self).fs.dir_has(old_name@) && !old(self).fs.dir_has(new_name@)),
            r == -1 ==> final(self).tasks@ == old(self).tasks@ && files_fs_eq(
                *old(self),
                *final(self),
            ),
            r == 0 ==> ({
                let ino = old(self).fs.dir_ino(old_name@);
                &&& final(self).fs.dents@.len() == old(self).fs.dents@.len() + 1
                &&& (forall|d: int|
                    0 <= d < old(self).fs.dents@.len() ==> final(self).fs.dents@[d] == old(
                        self,
                    ).fs.dents@[d])
                &&& final(self).fs.dents@.last().name@ == new_name@
                &&& final(self).fs.dents@.last().inode == ino
                &&& final(self).fs.inodes@.len() == old(self).fs.inodes@.len()
                &&& final(self).fs.inodes@[ino as int].nlink == old(self).fs.inodes@[
                    ino as int].nlink + 1
                &&& final(self).fs.inodes@[ino as int].data@ == old(self).fs.inodes@[
                    ino as int].data@
                &&& (forall|x: int|
                    0 <= x < old(self).fs.inodes@.len() && x != ino ==> final(self).fs.inodes@[x]
                        == old(self).fs.inodes@[x])
            }),
            final(self).tasks@ == old(self).tasks@,
            final(self).files@ == old(self).files@,
            final(self).current == old(self).current,
            final(self).ready@ == old(self).ready@,
            final(self).now_us == old(self).now_us,
    {
        if old_name.len() == 0 || new_name.len() == 0 || crate::fs::bytes_eq(old_name, new_name) {
            return -1;
        }
        let found = self.fs.lookup(old_name);
        match found {
            None => -1,
            Some(ino) => {
                let already = self.fs.lookup(new_name);
                if already.is_some() {
                    return -1;
                }
                let node = &mut self.fs.inodes[ino];
                node.nlink = node.nlink + 1;
                self.fs.dents.push(
                    crate::fs::DirEnt { name: crate::fs::clone_bytes(new_name), inode: ino },
                );
                0
            },
        }
    }

    /// `unlinkat` syscall: removes the directory entry `name`, lowering
    /// the link count of the inode it pointed at.  Reports `-1`, touching
    /// nothing, for an empty or unresolvable path.
    pub fn sys_unlinkat(&mut self, name: &Vec<u8>) -> (r: isize)
        requires
            old(self).wf(),
        ensures
            final(self).wf(),
            r == -1 || r == 0,
            (r == 0) <==> (name@.len() > 0 && old(self).fs.dir_has(name@)),
            r == -1 ==> final(self).tasks@ == old(self).tasks@ && files_fs_eq(
                *old(self),
                *final(self),
            ),
            r == 0 ==> ({
                let ino = old(self).fs.dir_ino(name@);
                &&& final(self).fs.dents@ == old(self).fs.dents@.remove(
                    old(self).fs.dir_idx(name@),
                )
                &&& final(self).fs.inodes@.len() == old(self).fs.inodes@.len()
                &&& final(self).fs.inodes@[ino as int].nlink == (if old(self).fs.inodes@[
                    ino as int].nlink > 0 {
                    (old(self).fs.inodes@[ino as int].nlink - 1) as u32
                } else {
                    0u32
                })
                &&& final(self).fs.inodes@[ino as int].data@ == old(self).fs.inodes@[
                    ino as int].data@
                &&& (forall|x: int|
                    0 <= x < old(self).fs.inodes@.len() && x != ino ==> final(self).fs.inodes@[x]
                        == old(self).fs.inodes@[x])
            }),
            final(self).tasks@ == old(self).tasks@,
            final(self).files@ == old(self).files@,
            final(self).current == old(self).current,
            final(self).ready@ == old(self).ready@,
            final(self).now_us == old(self).now_us,
    {
        if name.len() == 0 {
            return -1;
        }
        let n = self.fs.dents.len();
        let mut i: usize = 0;
        while i < n
            invariant
                n == self.fs.dents@.len(),
                0 <= i <= n,
                self == old(self),
                self.wf(),
                name@.len() > 0,
                forall|j: int| 0 <= j < i ==> (#[trigger] self.fs.dents@[j]).name@ != name@,
            decreases n - i,
        {
            if crate::fs::bytes_eq(&self.fs.dents[i].name, name) {
                proof {
                    assert(self.fs.dents@[i as int].name@ == name@);
                    assert(self.fs.dir_has(name@));
                    let w = self.fs.dir_idx(name@);
                    assert(0 <= w < self.fs.dents@.len() && self.fs.dents@[w].name@ == name@);
                    assert(w == i);
                }
                let ino = self.fs.dents[i].inode;
                self.fs.dents.remove(i);
                let node = &mut self.fs.inodes[ino];
                if node.nlink > 0 {
                    node.nlink = node.nlink - 1;
                }
                proof {
                    assert forall|p: int, q: int|
                        0 <= p < q < self.fs.dents@.len() implies (
                    #[trigger] self.fs.dents@[p]).name@ != (#[trigger] self.fs.dents@[q]).name@ by {
                        let p0 = if p < i { p } else { p + 1 };
                        let q0 = if q < i { q } else { q + 1 };
                        assert(self.fs.dents@[p] == old(self).fs.dents@[p0]);
                        assert(self.fs.dents@[q] == old(self).fs.dents@[q0]);
                    }
                }
                return 0;
            }
            i += 1;
        }
        -1
    }
}

/// Every field of two task records agrees except possibly the descriptor
/// table.
pub open spec fn tcb_eq_except_fd(a: crate::task::Tcb, b: crate::task::Tcb) -> bool {
    &&& a.pid == b.pid
    &&& a.status == b.status
    &&& a.exit_code == b.exit_code
    &&& a.memory_set.pages@ == b.memory_set.pages@
    &&& a.parent == b.parent
    &&& a.children@ == b.children@
    &&& a.syscall_times@ == b.syscall_times@
    &&& a.start_time == b.start_time
    &&& a.heap_bottom == b.heap_bottom
    &&& a.program_brk == b.program_brk
}

/// Law: a freed descriptor is reused before the table grows.  `close(fd)`
/// leaves slot `fd` empty; any later allocation that reports every slot
/// below its result occupied — as `open` and `dup` do — therefore hands
/// out `fd` itself or a lower free slot, never a fresh higher one.
pub proof fn lemma_close_open_reuses_fd(table: Seq<Option<usize>>, fd: int, r: int)
    requires
        0 <= fd < table.len(),
        table[fd].is_none(),
        forall|j: int| 0 <= j < r ==> (#[trigger] table[j]).is_some(),
    ensures
        r <= fd,
{
    if r > fd {
        assert(table[fd].is_some());
    }
}

/// Finds the lowest free descriptor slot, extending the table by one
/// empty slot when it is full; the returned index is free, and every
/// lower slot is occupied.
pub fn alloc_fd(table: &mut Vec<Option<usize>>) -> (fd: usize)
    requires
        old(table)@.len() < usize::MAX,
    ensures
        fd <= old(table)@.len(),
        fd < final(table)@.len(),
        final(table)@[fd as int].is_none(),
        forall|j: int| 0 <= j < fd ==> (#[trigger] old(table)@[j]).is_some(),
        fd < old(table)@.len() ==> final(table)@ == old(table)@,
        fd == old(table)@.len() ==> final(table)@ == old(table)@.push(None),
{
    let n = table.len();
    let mut i: usize = 0;
    while i < n
        invariant
            n == table@.len(),
            0 <= i <= n,
            table@ == old(table)@,
            forall|j: int| 0 <= j < i ==> (#[trigger] table@[j]).is_some(),
        decreases n - i,
    {
        if table[i].is_none() {
            return i;
        }
        i += 1;
    }
    table.push(None);
    n
}

} // verus!

use oscore::kernel::Kernel;
use oscore::kernel::IDLE_PID;
use oscore::task::TaskStatus;
use oscore::task::SYSCALL_WRITE;
use oscore::task::SYSCALL_YIELD;

fn boot_proc() -> Kernel {
    let mut k = Kernel::new();
    k.add_initproc();
    k.run_next_task();
    k
}

#[test]
fn boot_makes_the_root_current() {
    let mut k = Kernel::new();
    k.add_initproc();
    assert_eq!(k.ready, vec![IDLE_PID]);
    assert!(k.current.is_none());
    k.run_next_task();
    assert_eq!(k.current, Some(IDLE_PID));
    assert_eq!(k.tasks[IDLE_PID].status, TaskStatus::Running);
    assert!(k.ready.is_empty());
}

#[test]
fn yield_requeues_at_the_tail_and_dispatch_is_fifo() {
    let mut k = boot_proc();
    let a = k.spawn(0);
    let b = k.spawn(0);
    assert_eq!(k.ready, vec![a, b]);
    // root yields: it goes to the tail, the queue head runs next
    assert_eq!(k.sys_yield(), 0);
    assert_eq!(k.current, Some(a));
    assert_eq!(k.ready, vec![b, 0]);
    assert_eq!(k.tasks[0].status, TaskStatus::Ready);
    assert_eq!(k.tasks[a].status, TaskStatus::Running);
    // the sole ready task yielding runs again at once
    let mut solo = boot_proc();
    assert_eq!(solo.sys_yield(), 0);
    assert_eq!(solo.current, Some(0));
    assert!(solo.ready.is_empty());
}

#[test]
fn exit_reparents_children_to_the_root() {
    let mut k = boot_proc();
    let p = k.spawn(0);
    let c1 = k.spawn(p);
    let c2 = k.spawn(p);
    let root_children_before = k.tasks[IDLE_PID].children.len();
    k.sys_yield();
    assert_eq!(k.current, Some(p));
    k.sys_exit(7);
    // the root's children list grew by exactly the two reparented children
    assert_eq!(k.tasks[IDLE_PID].children.len(), root_children_before + 2);
    assert!(k.tasks[IDLE_PID].children.contains(&c1));
    assert!(k.tasks[IDLE_PID].children.contains(&c2));
    assert_eq!(k.tasks[c1].parent, Some(IDLE_PID));
    assert_eq!(k.tasks[c2].parent, Some(IDLE_PID));
}

#[test]
fn exit_scenario_zombie_with_code_and_empty_resources() {
    let mut k = boot_proc();
    let p = k.spawn(0);
    let c1 = k.spawn(p);
    let c2 = k.spawn(p);
    k.sys_yield();
    assert_eq!(k.current, Some(p));
    // give the exiting task some mapped pages and a descriptor
    assert_eq!(k.sys_mmap(0x1000, 0x2000, 0x3), 0);
    let fd = k.sys_open(&b"plog".to_vec(), 512);
    assert!(fd >= 0);
    k.sys_exit(7);
    assert_eq!(k.tasks[p].status, TaskStatus::Zombie);
    assert_eq!(k.tasks[p].exit_code, 7);
    assert!(k.tasks[p].children.is_empty());
    assert_eq!(k.tasks[p].memory_set.pages.len(), 0);
    assert!(k.tasks[p].fd_table.is_empty());
    assert!(k.tasks[IDLE_PID].children.contains(&c1));
    assert!(k.tasks[IDLE_PID].children.contains(&c2));
    assert_eq!(k.tasks[c1].parent, Some(IDLE_PID));
    assert_eq!(k.tasks[c2].parent, Some(IDLE_PID));
    // the next ready task was dispatched
    assert_eq!(k.current, Some(c1));
    assert_eq!(k.tasks[c1].status, TaskStatus::Running);
}

#[test]
fn task_info_counts_and_time() {
    let mut k = boot_proc();
    k.inc_syscall_times(SYSCALL_WRITE);
    k.inc_syscall_times(SYSCALL_WRITE);
    k.inc_syscall_times(SYSCALL_WRITE);
    k.inc_syscall_times(SYSCALL_YIELD);
    k.set_clock_us(7_345_678);
    let (r, info) = k.sys_task_info();
    assert_eq!(r, 0);
    assert_eq!(info.status, TaskStatus::Running);
    assert_eq!(info.syscall_times[SYSCALL_WRITE], 3);
    assert_eq!(info.syscall_times[SYSCALL_YIELD], 1);
    assert_eq!(info.time, 7_345);
}

#[test]
fn task_info_time_survives_long_uptimes() {
    let mut k = boot_proc();
    k.set_clock_us(65_536_000_000);
    let (r, info) = k.sys_task_info();
    assert_eq!(r, 0);
    assert_eq!(info.time, 65_536_000);
}

#[test]
fn get_time_reports_seconds_and_microseconds() {
    let mut k = boot_proc();
    k.set_clock_us(3_500_042);
    let (r, tv) = k.sys_get_time(0);
    assert_eq!(r, 0);
    assert_eq!(tv.sec, 3);
    assert_eq!(tv.usec, 500_042);
}

#[test]
fn repeated_yields_cycle_the_tasks_round_robin() {
    let mut k = boot_proc();
    let a = k.spawn(0);
    let b = k.spawn(0);
    let mut order = Vec::new();
    for _ in 0..6 {
        order.push(k.current.unwrap());
        k.sys_yield();
    }
    assert_eq!(order, vec![0, a, b, 0, a, b]);
}

#[test]
fn queue_helpers_keep_fifo_order() {
    let mut k = boot_proc();
    let a = k.spawn(0);
    let b = k.spawn(0);
    let c = k.spawn(0);
    assert_eq!(k.fetch_task(), Some(a));
    assert_eq!(k.fetch_task(), Some(b));
    k.add_task(a);
    assert_eq!(k.fetch_task(), Some(c));
    assert_eq!(k.fetch_task(), Some(a));
    assert_eq!(k.fetch_task(), None);
    assert_eq!(k.take_current_task(), Some(0));
    assert!(k.current.is_none());
}

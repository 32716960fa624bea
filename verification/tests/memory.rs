use oscore::kernel::Kernel;
use oscore::mem::PAGE_SIZE;

fn boot_mem() -> Kernel {
    let mut k = Kernel::new();
    k.add_initproc();
    k.run_next_task();
    k
}

fn mapped_pages(k: &Kernel, id: usize) -> usize {
    k.tasks[id].memory_set.pages.len()
}

#[test]
fn mmap_then_munmap_round_trip() {
    let mut k = boot_mem();
    assert_eq!(mapped_pages(&k, 0), 0);
    assert_eq!(k.sys_mmap(0x1000, 0x2000, 0x3), 0);
    assert_eq!(mapped_pages(&k, 0), 2);
    assert_eq!(k.sys_munmap(0x1000, 0x2000), 0);
    assert_eq!(mapped_pages(&k, 0), 0);
}

#[test]
fn mmap_round_trip_keeps_other_mappings() {
    let mut k = boot_mem();
    assert_eq!(k.sys_mmap(0x8000, 0x1000, 0x1), 0);
    assert_eq!(k.sys_mmap(0x1000, 0x3000, 0x7), 0);
    assert_eq!(k.sys_munmap(0x1000, 0x3000), 0);
    assert_eq!(mapped_pages(&k, 0), 1);
    let perm = k.tasks[0].memory_set.translate(0x8000 / PAGE_SIZE);
    assert_eq!(perm, Some((0x1 << 1) | 0x10));
}

#[test]
fn mmap_overlap_fails_and_changes_nothing() {
    let mut k = boot_mem();
    assert_eq!(k.sys_mmap(0x1000, 0x2000, 0x3), 0);
    // overlapping range: rejected whole, even where some pages are free
    assert_eq!(k.sys_mmap(0x2000, 0x2000, 0x7), -1);
    assert_eq!(mapped_pages(&k, 0), 2);
    // the surviving mappings keep their permission bits
    let old_perm = Some((0x3u8 << 1) | 0x10);
    assert_eq!(k.tasks[0].memory_set.translate(1), old_perm);
    assert_eq!(k.tasks[0].memory_set.translate(2), old_perm);
    assert_eq!(k.tasks[0].memory_set.translate(3), None);
}

#[test]
fn second_mmap_on_same_start_fails() {
    let mut k = boot_mem();
    assert_eq!(k.sys_mmap(0x1000, 0x2000, 0x3), 0);
    assert_eq!(k.sys_mmap(0x1000, 0x1000, 0x1), -1);
}

#[test]
fn munmap_with_unmapped_page_fails_and_changes_nothing() {
    let mut k = boot_mem();
    assert_eq!(k.sys_mmap(0x1000, 0x1000, 0x3), 0);
    // range covers page 1 (mapped) and page 2 (unmapped)
    assert_eq!(k.sys_munmap(0x1000, 0x2000), -1);
    assert_eq!(mapped_pages(&k, 0), 1);
    assert!(k.tasks[0].memory_set.translate(1).is_some());
    assert_eq!(k.sys_munmap(0x5000, 0x1000), -1);
    assert_eq!(mapped_pages(&k, 0), 1);
}

#[test]
fn mmap_rejects_bad_arguments() {
    let mut k = boot_mem();
    // start off a page boundary
    assert_eq!(k.sys_mmap(0x1001, 0x1000, 0x3), -1);
    // no permission bits
    assert_eq!(k.sys_mmap(0x1000, 0x1000, 0x0), -1);
    // bits outside the low three
    assert_eq!(k.sys_mmap(0x1000, 0x1000, 0x8), -1);
    assert_eq!(k.sys_mmap(0x1000, 0x1000, 0x9), -1);
    assert_eq!(mapped_pages(&k, 0), 0);
}

#[test]
fn munmap_rejects_unaligned_start() {
    let mut k = boot_mem();
    assert_eq!(k.sys_mmap(0x1000, 0x1000, 0x3), 0);
    assert_eq!(k.sys_munmap(0x1001, 0xfff), -1);
    assert_eq!(mapped_pages(&k, 0), 1);
}

#[test]
fn mmap_rounds_length_up_to_whole_pages() {
    let mut k = boot_mem();
    assert_eq!(k.sys_mmap(0x1000, 0x1001, 0x2), 0);
    // a trailing partial page is mapped whole
    assert_eq!(mapped_pages(&k, 0), 2);
    assert!(k.tasks[0].memory_set.translate(1).is_some());
    assert!(k.tasks[0].memory_set.translate(2).is_some());
    assert!(k.tasks[0].memory_set.translate(3).is_none());
}

#[test]
fn zero_length_requests_succeed_and_map_nothing() {
    let mut k = boot_mem();
    assert_eq!(k.sys_mmap(0x1000, 0, 0x3), 0);
    assert_eq!(mapped_pages(&k, 0), 0);
    assert_eq!(k.sys_munmap(0x1000, 0), 0);
    assert_eq!(mapped_pages(&k, 0), 0);
}

#[test]
fn sbrk_moves_the_break_and_reports_the_old_one() {
    let mut k = boot_mem();
    assert_eq!(k.sys_sbrk(100), 0);
    assert_eq!(k.tasks[0].program_brk, 100);
    assert_eq!(k.sys_sbrk(-40), 100);
    assert_eq!(k.tasks[0].program_brk, 60);
    // dropping below the heap bottom is refused and changes nothing
    assert_eq!(k.sys_sbrk(-61), -1);
    assert_eq!(k.tasks[0].program_brk, 60);
    assert_eq!(k.sys_sbrk(0), 60);
}

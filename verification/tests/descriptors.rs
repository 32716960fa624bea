use oscore::fs::OPEN_CREATE;
use oscore::fs::OPEN_RDWR;
use oscore::fs::OPEN_TRUNC;
use oscore::fs::OPEN_WRONLY;
use oscore::fs::STAT_MODE_FILE;
use oscore::kernel::Kernel;

fn boot_fd() -> Kernel {
    let mut k = Kernel::new();
    k.add_initproc();
    k.run_next_task();
    k
}

#[test]
fn bad_descriptors_give_minus_one_without_side_effects() {
    let mut k = boot_fd();
    let fd = k.sys_open(&b"f".to_vec(), OPEN_CREATE);
    assert_eq!(fd, 0);
    // out-of-range descriptor
    let big = 7usize;
    assert_eq!(k.sys_write(big, &b"x".to_vec()), -1);
    let (r, out) = k.sys_read(big, 4);
    assert_eq!(r, -1);
    assert!(out.is_empty());
    assert_eq!(k.sys_close(big), -1);
    assert_eq!(k.sys_dup(big), -1);
    let (r, _st) = k.sys_fstat(big);
    assert_eq!(r, -1);
    // empty slot
    assert_eq!(k.sys_close(0), 0);
    assert_eq!(k.sys_write(0, &b"x".to_vec()), -1);
    let (r, _) = k.sys_read(0, 4);
    assert_eq!(r, -1);
    assert_eq!(k.sys_close(0), -1);
    assert_eq!(k.sys_dup(0), -1);
    let (r, _st) = k.sys_fstat(0);
    assert_eq!(r, -1);
    // nothing was disturbed: the file is still there, openable and intact
    let fd2 = k.sys_open(&b"f".to_vec(), 0);
    assert_eq!(fd2, 0);
}

#[test]
fn close_frees_the_slot_and_open_reuses_it() {
    let mut k = boot_fd();
    let a = k.sys_open(&b"a".to_vec(), OPEN_CREATE);
    let b = k.sys_open(&b"b".to_vec(), OPEN_CREATE);
    let c = k.sys_open(&b"c".to_vec(), OPEN_CREATE);
    assert_eq!((a, b, c), (0, 1, 2));
    assert_eq!(k.sys_close(1), 0);
    // the freed slot is taken before the table grows
    let d = k.sys_open(&b"d".to_vec(), OPEN_CREATE);
    assert_eq!(d, 1);
    let e = k.sys_open(&b"e".to_vec(), OPEN_CREATE);
    assert_eq!(e, 3);
}

#[test]
fn write_then_read_round_trips_the_bytes() {
    let mut k = boot_fd();
    let fd = k.sys_open(&b"log".to_vec(), OPEN_CREATE) as usize;
    assert_eq!(k.sys_write(fd, &b"hello".to_vec()), 5);
    assert_eq!(k.sys_close(fd as usize), 0);
    let fd = k.sys_open(&b"log".to_vec(), 0) as usize;
    let (r, out) = k.sys_read(fd, 16);
    assert_eq!(r, 5);
    assert_eq!(out, b"hello".to_vec());
    // the cursor advanced past the end: nothing more to read
    let (r, out) = k.sys_read(fd, 16);
    assert_eq!(r, 0);
    assert!(out.is_empty());
}

#[test]
fn capabilities_follow_the_open_flags() {
    let mut k = boot_fd();
    let fd = k.sys_open(&b"w".to_vec(), OPEN_CREATE | OPEN_WRONLY) as usize;
    let (r, _) = k.sys_read(fd, 4);
    assert_eq!(r, -1);
    assert_eq!(k.sys_write(fd, &b"ab".to_vec()), 2);
    k.sys_close(fd);
    let fd = k.sys_open(&b"w".to_vec(), 0) as usize;
    assert_eq!(k.sys_write(fd, &b"cd".to_vec()), -1);
    let (r, out) = k.sys_read(fd, 4);
    assert_eq!(r, 2);
    assert_eq!(out, b"ab".to_vec());
}

#[test]
fn truncate_clears_an_existing_file() {
    let mut k = boot_fd();
    let fd = k.sys_open(&b"t".to_vec(), OPEN_CREATE) as usize;
    assert_eq!(k.sys_write(fd, &b"old bytes".to_vec()), 9);
    k.sys_close(fd);
    let fd = k.sys_open(&b"t".to_vec(), OPEN_RDWR | OPEN_TRUNC) as usize;
    let (r, out) = k.sys_read(fd, 16);
    assert_eq!(r, 0);
    assert!(out.is_empty());
}

#[test]
fn dup_shares_one_cursor_and_separate_opens_do_not() {
    let mut k = boot_fd();
    let fd = k.sys_open(&b"s".to_vec(), OPEN_CREATE | OPEN_RDWR) as usize;
    let alias = k.sys_dup(fd) as usize;
    assert_eq!(alias, 1);
    assert_eq!(k.sys_write(fd, &b"xyz".to_vec()), 3);
    // the alias shares the open file, so its cursor already passed the bytes
    let (r, out) = k.sys_read(alias, 8);
    assert_eq!(r, 0);
    assert!(out.is_empty());
    // a separate open of the same file starts at the beginning
    let other = k.sys_open(&b"s".to_vec(), 0) as usize;
    let (r, out) = k.sys_read(other, 8);
    assert_eq!(r, 3);
    assert_eq!(out, b"xyz".to_vec());
}

#[test]
fn fstat_reports_inode_mode_and_links() {
    let mut k = boot_fd();
    let fd = k.sys_open(&b"one".to_vec(), OPEN_CREATE) as usize;
    let (r, st) = k.sys_fstat(fd);
    assert_eq!(r, 0);
    assert_eq!(st.dev, 0);
    assert_eq!(st.ino, 0);
    assert_eq!(st.mode, STAT_MODE_FILE);
    assert_eq!(st.nlink, 1);
    let fd2 = k.sys_open(&b"two".to_vec(), OPEN_CREATE) as usize;
    let (_, st2) = k.sys_fstat(fd2);
    assert_eq!(st2.ino, 1);
}

#[test]
fn linkat_adds_a_name_for_the_same_inode() {
    let mut k = boot_fd();
    let fd = k.sys_open(&b"orig".to_vec(), OPEN_CREATE) as usize;
    assert_eq!(k.sys_write(fd, &b"shared".to_vec()), 6);
    assert_eq!(k.sys_linkat(&b"orig".to_vec(), &b"alias".to_vec()), 0);
    let (_, st) = k.sys_fstat(fd);
    assert_eq!(st.nlink, 2);
    let fd2 = k.sys_open(&b"alias".to_vec(), 0) as usize;
    let (r, out) = k.sys_read(fd2, 16);
    assert_eq!(r, 6);
    assert_eq!(out, b"shared".to_vec());
    let (_, st2) = k.sys_fstat(fd2);
    assert_eq!(st2.ino, st.ino);
}

#[test]
fn linkat_rejects_empty_identical_missing_and_taken_paths() {
    let mut k = boot_fd();
    k.sys_open(&b"orig".to_vec(), OPEN_CREATE);
    k.sys_open(&b"other".to_vec(), OPEN_CREATE);
    assert_eq!(k.sys_linkat(&b"".to_vec(), &b"x".to_vec()), -1);
    assert_eq!(k.sys_linkat(&b"orig".to_vec(), &b"".to_vec()), -1);
    assert_eq!(k.sys_linkat(&b"orig".to_vec(), &b"orig".to_vec()), -1);
    assert_eq!(k.sys_linkat(&b"missing".to_vec(), &b"x".to_vec()), -1);
    assert_eq!(k.sys_linkat(&b"orig".to_vec(), &b"other".to_vec()), -1);
}

#[test]
fn unlinkat_removes_a_name_and_lowers_the_link_count() {
    let mut k = boot_fd();
    let fd = k.sys_open(&b"orig".to_vec(), OPEN_CREATE) as usize;
    assert_eq!(k.sys_linkat(&b"orig".to_vec(), &b"alias".to_vec()), 0);
    assert_eq!(k.sys_unlinkat(&b"orig".to_vec()), 0);
    // the old name is gone, the alias still reaches the inode
    assert_eq!(k.sys_open(&b"orig".to_vec(), 0), -1);
    let (_, st) = k.sys_fstat(fd);
    assert_eq!(st.nlink, 1);
    assert!(k.sys_open(&b"alias".to_vec(), 0) >= 0);
    // errors: empty path, unknown path
    assert_eq!(k.sys_unlinkat(&b"".to_vec()), -1);
    assert_eq!(k.sys_unlinkat(&b"missing".to_vec()), -1);
}

#[test]
fn pipe_moves_bytes_from_write_end_to_read_end() {
    let mut k = boot_fd();
    let (r, read_fd, write_fd) = k.sys_pipe();
    assert_eq!(r, 0);
    assert_eq!((read_fd, write_fd), (0, 1));
    // the ends hold their single capability
    assert_eq!(k.sys_write(read_fd, &b"x".to_vec()), -1);
    let (r, _) = k.sys_read(write_fd, 4);
    assert_eq!(r, -1);
    // what the write end accepts, the read end hands out in order
    assert_eq!(k.sys_write(write_fd, &b"ping".to_vec()), 4);
    let (r, out) = k.sys_read(read_fd, 2);
    assert_eq!(r, 2);
    assert_eq!(out, b"pi".to_vec());
    assert_eq!(k.sys_write(write_fd, &b"!".to_vec()), 1);
    let (r, out) = k.sys_read(read_fd, 8);
    assert_eq!(r, 3);
    assert_eq!(out, b"ng!".to_vec());
}

#[test]
fn open_without_create_fails_on_a_missing_path() {
    let mut k = boot_fd();
    assert_eq!(k.sys_open(&b"nowhere".to_vec(), 0), -1);
    assert!(k.tasks[0].fd_table.is_empty());
    assert!(k.files.is_empty());
}

#[test]
fn write_at_a_cursor_inside_the_file_overwrites_in_place() {
    let mut k = boot_fd();
    let fd = k.sys_open(&b"f".to_vec(), OPEN_CREATE | OPEN_RDWR) as usize;
    assert_eq!(k.sys_write(fd, &b"abcdef".to_vec()), 6);
    k.sys_close(fd);
    let fd = k.sys_open(&b"f".to_vec(), OPEN_RDWR) as usize;
    let (r, out) = k.sys_read(fd, 2);
    assert_eq!(r, 2);
    assert_eq!(out, b"ab".to_vec());
    // cursor now at 2: the write lands there, the tail survives
    assert_eq!(k.sys_write(fd, &b"XY".to_vec()), 2);
    let (r, out) = k.sys_read(fd, 8);
    assert_eq!(r, 2);
    assert_eq!(out, b"ef".to_vec());
    k.sys_close(fd);
    let fd = k.sys_open(&b"f".to_vec(), 0) as usize;
    let (r, out) = k.sys_read(fd, 8);
    assert_eq!(r, 6);
    assert_eq!(out, b"abXYef".to_vec());
}

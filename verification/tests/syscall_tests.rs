use zero_os::syscall::{
    syscall_handler, read_string_from_user, copy_to_user, Control, KernelState, UserMemory,
    SYS_READ, SYS_WRITE, SYS_OPEN, SYS_CLOSE, SYS_STAT, SYS_READDIR, SYS_MKDIR, SYS_TOUCH, SYS_RM,
    SYS_CLEAR, SYS_REBOOT, SYS_EXIT, SYS_YIELD,
};
use zero_os::terminal::Terminal;
use zero_os::fs_init;

fn fresh_state() -> KernelState {
    KernelState { fs: Some(fs_init::init()), term: Terminal::new() }
}

fn memory_with(bytes: &[u8]) -> UserMemory {
    let mut v = vec![0u8; 256];
    for (i, b) in bytes.iter().enumerate() {
        v[i] = *b;
    }
    UserMemory { bytes: v }
}

fn screen(term: &Terminal) -> String {
    term.out.iter().collect()
}

#[test]
fn user_string_reads_until_nul() {
    let mem = memory_with(b"/tmp\0junk");
    assert_eq!(read_string_from_user(&mem, 0), b"/tmp");
    assert_eq!(read_string_from_user(&mem, 1), b"tmp");
}

#[test]
fn user_string_stops_at_end_of_memory() {
    let mem = UserMemory { bytes: vec![b'a', b'b', b'c'] };
    assert_eq!(read_string_from_user(&mem, 0), b"abc");
    assert_eq!(read_string_from_user(&mem, 100), b"");
}

#[test]
fn user_string_honors_safety_cap() {
    let mem = UserMemory { bytes: vec![b'x'; 6000] };
    let s = read_string_from_user(&mem, 0);
    assert_eq!(s.len(), 4097);
}

#[test]
fn copy_to_user_writes_in_bounds_only() {
    let mut mem = UserMemory { bytes: vec![0u8; 8] };
    copy_to_user(&mut mem, 5, b"abcdef");
    assert_eq!(mem.bytes, vec![0, 0, 0, 0, 0, b'a', b'b', b'c']);
}

#[test]
fn unknown_syscall_returns_sentinel_and_changes_nothing() {
    let mut st = fresh_state();
    let mut mem = memory_with(b"/tmp\0");
    let mem_before = mem.bytes.clone();
    let out = syscall_handler(&mut st, &mut mem, 99, 1, 2, 3);
    assert_eq!(out.value, u64::MAX);
    assert_eq!(out.control, Control::Proceed);
    assert_eq!(mem.bytes, mem_before);
    let fs = st.fs.as_ref().unwrap();
    assert!(fs.path_exists("/home") && fs.path_exists("/tmp") && fs.path_exists("/bin"));
    assert_eq!(fs.list_dir("/").unwrap().len(), 3);
    assert_eq!(screen(&st.term), "[SYSCALL] Unknown syscall: 99\n");
}

#[test]
fn write_prints_valid_text_and_returns_length() {
    let mut st = fresh_state();
    let mut mem = memory_with(b"hello");
    let out = syscall_handler(&mut st, &mut mem, SYS_WRITE, 1, 0, 5);
    assert_eq!(out.value, 5);
    assert_eq!(screen(&st.term), "hello");
}

#[test]
fn write_to_wrong_descriptor_is_sentinel() {
    let mut st = fresh_state();
    let mut mem = memory_with(b"hello");
    let out = syscall_handler(&mut st, &mut mem, SYS_WRITE, 2, 0, 5);
    assert_eq!(out.value, u64::MAX);
    assert_eq!(screen(&st.term), "");
}

#[test]
fn write_of_invalid_text_returns_zero() {
    let mut st = fresh_state();
    let mut mem = memory_with(&[0xff, 0xfe, 0xfd]);
    let out = syscall_handler(&mut st, &mut mem, SYS_WRITE, 1, 0, 3);
    assert_eq!(out.value, 0);
    assert_eq!(screen(&st.term), "");
}

#[test]
fn read_stub_returns_zero() {
    let mut st = fresh_state();
    let mut mem = memory_with(b"");
    let out = syscall_handler(&mut st, &mut mem, SYS_READ, 0, 0, 10);
    assert_eq!(out.value, 0);
    assert_eq!(screen(&st.term), "[SYSCALL] sys_read called - not yet implemented\n");
    let out = syscall_handler(&mut st, &mut mem, SYS_READ, 5, 0, 10);
    assert_eq!(out.value, 0);
}

#[test]
fn open_existing_path_gives_placeholder_descriptor() {
    let mut st = fresh_state();
    let mut mem = memory_with(b"/tmp\0");
    let out = syscall_handler(&mut st, &mut mem, SYS_OPEN, 0, 0, 0);
    assert_eq!(out.value, 3);
}

#[test]
fn open_missing_path_is_sentinel() {
    let mut st = fresh_state();
    let mut mem = memory_with(b"/nope\0");
    let out = syscall_handler(&mut st, &mut mem, SYS_OPEN, 0, 0, 0);
    assert_eq!(out.value, u64::MAX);
}

#[test]
fn open_empty_path_is_sentinel() {
    let mut st = fresh_state();
    let mut mem = memory_with(b"\0");
    let out = syscall_handler(&mut st, &mut mem, SYS_OPEN, 0, 0, 0);
    assert_eq!(out.value, u64::MAX);
}

#[test]
fn close_always_succeeds() {
    let mut st = fresh_state();
    let mut mem = memory_with(b"");
    let out = syscall_handler(&mut st, &mut mem, SYS_CLOSE, 42, 0, 0);
    assert_eq!(out.value, 0);
}

#[test]
fn stat_writes_nine_byte_record() {
    let mut st = fresh_state();
    if let Some(fs) = st.fs.as_mut() {
        fs.create_file("/tmp/f").unwrap();
        fs.write_file("/tmp/f", &[7u8; 300]).unwrap();
    }
    let mut mem = memory_with(b"/tmp/f\0");
    let out = syscall_handler(&mut st, &mut mem, SYS_STAT, 0, 100, 0);
    assert_eq!(out.value, 0);
    // type byte 0 = file, then 300 little-endian
    assert_eq!(mem.bytes[100], 0);
    assert_eq!(mem.bytes[101], 44);
    assert_eq!(mem.bytes[102], 1);
    for k in 103..109 {
        assert_eq!(mem.bytes[k], 0);
    }
}

#[test]
fn stat_on_directory_sets_type_byte() {
    let mut st = fresh_state();
    let mut mem = memory_with(b"/tmp\0");
    let out = syscall_handler(&mut st, &mut mem, SYS_STAT, 0, 50, 0);
    assert_eq!(out.value, 0);
    assert_eq!(mem.bytes[50], 1);
}

#[test]
fn stat_missing_is_sentinel_and_memory_untouched() {
    let mut st = fresh_state();
    let mut mem = memory_with(b"/nope\0");
    let before = mem.bytes.clone();
    let out = syscall_handler(&mut st, &mut mem, SYS_STAT, 0, 50, 0);
    assert_eq!(out.value, u64::MAX);
    assert_eq!(mem.bytes, before);
}

#[test]
fn readdir_writes_listing_lines() {
    let mut st = fresh_state();
    let mut mem = memory_with(b"/\0");
    let out = syscall_handler(&mut st, &mut mem, SYS_READDIR, 0, 10, 200);
    let expected = "d        0 home\nd        0 tmp\nd        0 bin\n";
    assert_eq!(out.value, expected.len() as u64);
    let got: Vec<u8> = mem.bytes[10..10 + expected.len()].to_vec();
    assert_eq!(got, expected.as_bytes());
}

#[test]
fn readdir_truncates_to_buffer_capacity() {
    let mut st = fresh_state();
    let mut mem = memory_with(b"/\0");
    let out = syscall_handler(&mut st, &mut mem, SYS_READDIR, 0, 10, 4);
    assert_eq!(out.value, 4);
    assert_eq!(&mem.bytes[10..14], b"d   ");
}

#[test]
fn mkdir_touch_rm_over_the_boundary() {
    let mut st = fresh_state();
    let mut mem = memory_with(b"/tmp/d\0");
    assert_eq!(syscall_handler(&mut st, &mut mem, SYS_MKDIR, 0, 0, 0).value, 0);
    assert!(st.fs.as_ref().unwrap().path_exists("/tmp/d"));
    // creating it again collapses AlreadyExists to the sentinel
    assert_eq!(syscall_handler(&mut st, &mut mem, SYS_MKDIR, 0, 0, 0).value, u64::MAX);
    assert_eq!(syscall_handler(&mut st, &mut mem, SYS_RM, 0, 0, 0).value, 0);
    assert!(!st.fs.as_ref().unwrap().path_exists("/tmp/d"));
    let mut mem2 = memory_with(b"/tmp/f\0");
    assert_eq!(syscall_handler(&mut st, &mut mem2, SYS_TOUCH, 0, 0, 0).value, 0);
    assert!(st.fs.as_ref().unwrap().path_exists("/tmp/f"));
    // removing a missing path collapses NotFound to the sentinel
    let mut mem3 = memory_with(b"/gone\0");
    assert_eq!(syscall_handler(&mut st, &mut mem3, SYS_RM, 0, 0, 0).value, u64::MAX);
}

#[test]
fn clear_yield_exit_reboot_controls() {
    let mut st = fresh_state();
    let mut mem = memory_with(b"");
    let out = syscall_handler(&mut st, &mut mem, SYS_CLEAR, 0, 0, 0);
    assert_eq!(out.value, 0);
    assert_eq!(st.term.column, 0);
    assert_eq!(st.term.out.len(), 25);

    let mut st = fresh_state();
    let out = syscall_handler(&mut st, &mut mem, SYS_YIELD, 0, 0, 0);
    assert_eq!(out.value, 0);
    assert_eq!(screen(&st.term), "[SYSCALL] Yield Called\n");

    let mut st = fresh_state();
    let out = syscall_handler(&mut st, &mut mem, SYS_EXIT, 42, 0, 0);
    assert_eq!(out.control, Control::Halt);
    assert_eq!(
        screen(&st.term),
        "[SYSCALL] User program exited with code: 42\n[SYSCALL] Halting - will implement proper process exit later\n"
    );

    let mut st = fresh_state();
    let out = syscall_handler(&mut st, &mut mem, SYS_REBOOT, 0, 0, 0);
    assert_eq!(out.control, Control::Reboot);
    assert_eq!(screen(&st.term), "");
}

use zero_os::shell::{run_command, split_words, ShellAction};
use zero_os::terminal::Terminal;
use zero_os::trampoline::{syscall_trampoline, RegisterFile, ScratchSlots};
use zero_os::syscall::{Control, KernelState, UserMemory, SYS_MKDIR};
use zero_os::input::InputBuffer;
use zero_os::fmt::{u64_to_dec, pad_left};
use zero_os::yield_now::YieldNow;
use zero_os::gdt::{build_selectors, build_task_state};
use zero_os::userspace::{pages_needed, code_page_addresses, stack_page_addresses, user_stack_top,
    user_entry_frame, USER_CODE_BASE, USER_STACK_BASE, USER_STACK_SIZE};
use zero_os::fs_init;
use zero_os::ramfs::RamFs;

fn console_text(t: &Terminal) -> String {
    t.out.iter().collect()
}

fn booted() -> (Option<RamFs>, Terminal) {
    (Some(fs_init::init()), Terminal::new())
}

#[test]
fn split_words_handles_whitespace() {
    assert_eq!(split_words("  ls   /tmp "), vec!["ls", "/tmp"]);
    assert_eq!(split_words(""), Vec::<String>::new());
    assert_eq!(split_words("   \t  "), Vec::<String>::new());
    assert_eq!(split_words("a b\tc"), vec!["a", "b", "c"]);
}

#[test]
fn blank_line_does_nothing() {
    let (mut fs, mut term) = booted();
    let act = run_command(&mut fs, &mut term, "   ");
    assert_eq!(act, ShellAction::Continue);
    assert_eq!(console_text(&term), "");
}

#[test]
fn unknown_command_reports() {
    let (mut fs, mut term) = booted();
    run_command(&mut fs, &mut term, "frobnicate");
    assert_eq!(console_text(&term), "command not found\n");
}

#[test]
fn help_lists_commands() {
    let (mut fs, mut term) = booted();
    run_command(&mut fs, &mut term, "help");
    let text = console_text(&term);
    assert!(text.starts_with("Available commands:\n"));
    assert!(text.contains("  write <file> <text> - write text to file\n"));
    assert!(text.ends_with("  stat <path>  - show file/directory information\n"));
}

#[test]
fn echo_prints_arguments() {
    let (mut fs, mut term) = booted();
    run_command(&mut fs, &mut term, "echo hello world");
    assert_eq!(console_text(&term), "hello world \n");
}

#[test]
fn reboot_requests_restart() {
    let (mut fs, mut term) = booted();
    let act = run_command(&mut fs, &mut term, "reboot");
    assert_eq!(act, ShellAction::Reboot);
    assert_eq!(console_text(&term), "Rebooting...\n");
}

#[test]
fn clear_resets_column() {
    let (mut fs, mut term) = booted();
    term.write("prompt");
    run_command(&mut fs, &mut term, "clear");
    assert_eq!(term.column, 0);
}

#[test]
fn ls_root_lists_standard_directories() {
    let (mut fs, mut term) = booted();
    run_command(&mut fs, &mut term, "ls");
    assert_eq!(console_text(&term), "d        0 home\nd        0 tmp\nd        0 bin\n");
}

#[test]
fn ls_empty_directory_shows_placeholder() {
    let (mut fs, mut term) = booted();
    run_command(&mut fs, &mut term, "ls /tmp");
    assert_eq!(console_text(&term), "(empty)\n");
}

#[test]
fn ls_missing_path_reports_error() {
    let (mut fs, mut term) = booted();
    run_command(&mut fs, &mut term, "ls /gone");
    assert_eq!(console_text(&term), "ls: No such file or directory\n");
}

#[test]
fn mkdir_then_ls_shows_it() {
    let (mut fs, mut term) = booted();
    run_command(&mut fs, &mut term, "mkdir /docs");
    assert_eq!(console_text(&term), "");
    run_command(&mut fs, &mut term, "ls /");
    assert!(console_text(&term).contains("d        0 docs\n"));
}

#[test]
fn write_and_cat_round_trip() {
    let (mut fs, mut term) = booted();
    run_command(&mut fs, &mut term, "write /tmp/note hello shell world");
    assert_eq!(console_text(&term), "");
    run_command(&mut fs, &mut term, "cat /tmp/note");
    assert_eq!(console_text(&term), "hello shell world\n");
}

#[test]
fn cat_missing_file_reports_error() {
    let (mut fs, mut term) = booted();
    run_command(&mut fs, &mut term, "cat /gone");
    assert_eq!(console_text(&term), "cat: No such file or directory\n");
}

#[test]
fn cat_without_operand_reports_usage() {
    let (mut fs, mut term) = booted();
    run_command(&mut fs, &mut term, "cat");
    assert_eq!(console_text(&term), "cat: missing file operand\n");
}

#[test]
fn touch_and_rm_manage_files() {
    let (mut fs, mut term) = booted();
    run_command(&mut fs, &mut term, "touch /tmp/t");
    assert!(fs.as_ref().unwrap().path_exists("/tmp/t"));
    run_command(&mut fs, &mut term, "rm /tmp/t");
    assert!(!fs.as_ref().unwrap().path_exists("/tmp/t"));
    assert_eq!(console_text(&term), "");
    run_command(&mut fs, &mut term, "rm /tmp/t");
    assert_eq!(console_text(&term), "rm: No such file or directory\n");
}

#[test]
fn stat_prints_node_details() {
    let (mut fs, mut term) = booted();
    run_command(&mut fs, &mut term, "write /tmp/s abc");
    run_command(&mut fs, &mut term, "stat /tmp/s");
    assert_eq!(console_text(&term), "  File: s\n  Type: file\n  Size: 3 bytes\n");
    let (mut fs, mut term) = booted();
    run_command(&mut fs, &mut term, "stat /home");
    assert_eq!(console_text(&term), "  File: home\n  Type: directory\n  Size: 0 bytes\n");
}

#[test]
fn write_without_text_reports_usage() {
    let (mut fs, mut term) = booted();
    run_command(&mut fs, &mut term, "write /tmp/x");
    assert_eq!(console_text(&term), "write: missing operands\nusage: write <file> <text>\n");
}

#[test]
fn command_without_filesystem_reports_uninitialized() {
    let mut fs: Option<RamFs> = None;
    let mut term = Terminal::new();
    run_command(&mut fs, &mut term, "ls");
    assert_eq!(console_text(&term), "filesystem not initialized\n");
}

#[test]
fn terminal_tracks_column_and_backspace() {
    let mut t = Terminal::new();
    t.write("user@");
    assert_eq!(t.column, 5);
    t.mark_input_start();
    assert!(!t.can_backspace());
    t.backspace();
    assert_eq!(t.column, 5);
    t.write_char('x');
    assert!(t.can_backspace());
    t.backspace();
    assert_eq!(t.column, 5);
    assert_eq!(console_text(&t), "user@");
    t.write("a\nb");
    assert_eq!(t.column, 1);
}

#[test]
fn input_buffer_lines_and_backspace() {
    let mut b = InputBuffer::new();
    for c in "ab\u{8}cd\nrest".chars() {
        b.push_char(c);
    }
    // the backspace keystroke removed 'b'
    let line = b.take_line().unwrap();
    assert_eq!(line, "acd");
    assert_eq!(b.take_line(), None);
    assert_eq!(b.buf, "rest");
}

#[test]
fn decimal_rendering_and_padding() {
    assert_eq!(u64_to_dec(0), "0");
    assert_eq!(u64_to_dec(1234567890), "1234567890");
    assert_eq!(u64_to_dec(u64::MAX), "18446744073709551615");
    assert_eq!(pad_left(String::from("7"), 8), "       7");
    assert_eq!(pad_left(String::from("123456789"), 8), "123456789");
    assert_eq!(pad_left(String::from(""), 3), "   ");
}

#[test]
fn yield_suspends_once() {
    let mut y = YieldNow::new();
    assert!(!y.poll_step());
    assert!(y.poll_step());
    assert!(y.poll_step());
}

#[test]
fn selector_values_match_table_layout() {
    let s = build_selectors();
    assert_eq!(s.kernel_code_selector, 8);
    assert_eq!(s.user_code_selector, 19);
    assert_eq!(s.user_data_selector, 27);
    assert_eq!(s.tss_selector, 32);
}

#[test]
fn task_state_holds_stack_tops() {
    let t = build_task_state(0x1000, 4096 * 5, 0x80000, 4096 * 5);
    assert_eq!(t.privilege_stack_top, 0x1000 + 4096 * 5);
    assert_eq!(t.fault_stack_top, 0x80000 + 4096 * 5);
}

#[test]
fn loader_page_arithmetic() {
    assert_eq!(pages_needed(0), 0);
    assert_eq!(pages_needed(1), 1);
    assert_eq!(pages_needed(4096), 1);
    assert_eq!(pages_needed(4097), 2);
    let pages = code_page_addresses(8192);
    assert_eq!(pages, vec![USER_CODE_BASE, USER_CODE_BASE + 4096]);
    let stack = stack_page_addresses();
    assert_eq!(stack.len(), 20);
    assert_eq!(stack[0], USER_STACK_BASE);
    assert_eq!(user_stack_top(), USER_STACK_BASE + USER_STACK_SIZE);
}

#[test]
fn entry_frame_uses_user_selectors() {
    let s = build_selectors();
    let f = user_entry_frame(&s, 0x4000_0000_0000, 0x7000_0000_0000);
    assert_eq!(f.cs, s.user_code_selector);
    assert_eq!(f.ss, s.user_data_selector);
    assert_eq!(f.rflags, 0x200);
    assert_eq!(f.rip, 0x4000_0000_0000);
    assert_eq!(f.rsp, 0x7000_0000_0000);
}

#[test]
fn trampoline_preserves_registers_and_swaps_stacks() {
    let mut regs = RegisterFile {
        rax: SYS_MKDIR,
        rbx: 11,
        rcx: 0x4000_0000_0010,
        rdx: 0,
        rsi: 0,
        rdi: 0,
        rbp: 15,
        rsp: 0x7000_0000_0f00,
        r8: 108,
        r9: 109,
        r10: 110,
        r11: 0x202,
        r12: 112,
        r13: 113,
        r14: 114,
        r15: 115,
    };
    let mut slots = ScratchSlots { user_rsp: 0, kernel_rsp: 0xffff_8000_0002_0000 };
    let mut st = KernelState { fs: Some(fs_init::init()), term: Terminal::new() };
    let mut mem = UserMemory { bytes: b"/tmp/made\0".to_vec() };
    let c = syscall_trampoline(&mut regs, &mut slots, &mut st, &mut mem);
    assert_eq!(c, Control::Proceed);
    assert_eq!(regs.rax, 0);
    assert!(st.fs.as_ref().unwrap().path_exists("/tmp/made"));
    assert_eq!(slots.user_rsp, 0x7000_0000_0f00);
    assert_eq!(slots.kernel_rsp, 0xffff_8000_0002_0000);
    assert_eq!(regs.rsp, 0x7000_0000_0f00);
    assert_eq!(regs.rcx, 0x4000_0000_0010);
    assert_eq!(regs.r11, 0x202);
    assert_eq!(
        (regs.rbx, regs.rbp, regs.r8, regs.r9, regs.r10, regs.r12, regs.r13, regs.r14, regs.r15),
        (11, 15, 108, 109, 110, 112, 113, 114, 115)
    );
    assert_eq!((regs.rdi, regs.rsi, regs.rdx), (0, 0, 0));
}

#[test]
fn trampoline_unknown_number_leaves_state_alone() {
    let mut regs = RegisterFile {
        rax: 77,
        rbx: 0,
        rcx: 0,
        rdx: 0,
        rsi: 0,
        rdi: 0,
        rbp: 0,
        rsp: 0x1000,
        r8: 0,
        r9: 0,
        r10: 0,
        r11: 0,
        r12: 0,
        r13: 0,
        r14: 0,
        r15: 0,
    };
    let mut slots = ScratchSlots { user_rsp: 0, kernel_rsp: 0x2_0000 };
    let mut st = KernelState { fs: Some(fs_init::init()), term: Terminal::new() };
    let mut mem = UserMemory { bytes: vec![1, 2, 3] };
    let c = syscall_trampoline(&mut regs, &mut slots, &mut st, &mut mem);
    assert_eq!(c, Control::Proceed);
    assert_eq!(regs.rax, u64::MAX);
    assert_eq!(mem.bytes, vec![1, 2, 3]);
    assert_eq!(slots.kernel_rsp, 0x2_0000);
    assert_eq!(st.fs.as_ref().unwrap().list_dir("/").unwrap().len(), 3);
    let text: String = st.term.out.iter().collect();
    assert_eq!(text, "[SYSCALL] Unknown syscall: 77\n");
}

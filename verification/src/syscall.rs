//! The syscall layer: user-memory access over a flat byte model, the numbered
//! handlers, and the dispatcher. Every filesystem error kind collapses to the
//! single all-bits-set sentinel at this boundary.
use vstd::prelude::*;
use vstd::utf8::{valid_utf8, decode_utf8};
use crate::ramfs::RamFs;
use crate::terminal::{Terminal, col_after};
use crate::vfs::{FileType, INode, INodeV, spec_create, spec_remove, spec_stat, spec_list_dir};
use crate::fmt::{u64_to_dec, pad_left, dec_str, padded};

verus! {

pub const SYS_READ: u64 = 0;

pub const SYS_WRITE: u64 = 1;

pub const SYS_OPEN: u64 = 2;

pub const SYS_CLOSE: u64 = 3;

pub const SYS_STAT: u64 = 4;

pub const SYS_READDIR: u64 = 5;

pub const SYS_MKDIR: u64 = 6;

pub const SYS_TOUCH: u64 = 7;

pub const SYS_RM: u64 = 8;

pub const SYS_CLEAR: u64 = 9;

pub const SYS_REBOOT: u64 = 10;

pub const SYS_EXIT: u64 = 11;

pub const SYS_YIELD: u64 = 12;

/// The number of bytes a user string read may scan past its start.
pub const USER_STRING_CAP: u64 = 4096;

/// What the kernel does after a syscall: return to the caller, halt the
/// machine, or reboot it.
#[derive(Clone, Copy, Debug, PartialEq, Eq, Structural)]
pub enum Control {
    Proceed,
    Halt,
    Reboot,
}

/// A syscall's 64-bit result and what happens next. The value is meaningful
/// only when control is `Proceed`.
pub struct SysOutcome {
    pub value: u64,
    pub control: Control,
}

/// The kernel state a syscall can touch: the filesystem and the console.
pub struct KernelState {
    pub fs: Option<RamFs>,
    pub term: Terminal,
}

impl KernelState {
    pub open spec fn inv(&self) -> bool {
        self.fs matches Some(f) ==> f.inv()
    }
}

/// The flat model of user-accessible memory: addresses are indices.
pub struct UserMemory {
    pub bytes: Vec<u8>,
}

/// The NUL-terminated byte string at `ptr + off`: the scan stops at a NUL
/// byte, past the safety cap, or at the end of the accessible range.
pub open spec fn user_cstring(mem: Seq<u8>, ptr: int, off: int) -> Seq<u8>
    decreases 4097 - off,
{
    if off < 0 || off > 4096 || ptr < 0 || ptr + off >= mem.len() {
        Seq::empty()
    } else if mem[ptr + off] == 0 {
        Seq::empty()
    } else {
        seq![mem[ptr + off]] + user_cstring(mem, ptr, off + 1)
    }
}

/// The path argument a handler reads from user memory.
pub open spec fn path_arg(mem: Seq<u8>, ptr: u64) -> Seq<u8> {
    user_cstring(mem, ptr as int, 0)
}

/// The memory after writing `data` at `ptr`; bytes outside the accessible
/// range are dropped rather than written.
pub open spec fn write_bytes(mem: Seq<u8>, ptr: int, data: Seq<u8>) -> Seq<u8> {
    Seq::new(
        mem.len(),
        |i: int|
            if ptr <= i < ptr + data.len() {
                data[i - ptr]
            } else {
                mem[i]
            },
    )
}

/// Copies the NUL-terminated string at `ptr` out of user memory, stopping at
/// the safety cap or the end of the accessible range.
pub fn read_string_from_user(mem: &UserMemory, ptr: u64) -> (r: Vec<u8>)
    ensures
        r@ == path_arg(mem.bytes@, ptr),
{
    let mut bytes: Vec<u8> = Vec::new();
    let mut offset: u64 = 0;
    let len = mem.bytes.len() as u64;
    proof {
        assert(path_arg(mem.bytes@, ptr) =~= bytes@ + user_cstring(mem.bytes@, ptr as int, 0));
    }
    loop
        invariant
            0 <= offset <= 4097,
            len == mem.bytes@.len(),
            len <= usize::MAX as u64,
            path_arg(mem.bytes@, ptr) == bytes@ + user_cstring(
                mem.bytes@,
                ptr as int,
                offset as int,
            ),
        ensures
            path_arg(mem.bytes@, ptr) == bytes@,
        decreases 4097 - offset,
    {
        if offset > USER_STRING_CAP {
            proof {
                assert(offset as int > 4096);
                assert(user_cstring(mem.bytes@, ptr as int, offset as int) == Seq::<u8>::empty());
                assert(bytes@ + Seq::<u8>::empty() =~= bytes@);
            }
            break ;
        }
        if ptr >= len || offset >= len - ptr {
            proof {
                assert(ptr as int + offset as int >= mem.bytes@.len());
                assert(user_cstring(mem.bytes@, ptr as int, offset as int) =~= Seq::<u8>::empty());
                assert(bytes@ + Seq::<u8>::empty() =~= bytes@);
            }
            break ;
        }
        let idx = ptr + offset;
        proof {
            assert(idx < len);
            assert(len <= usize::MAX as u64);
            assert(idx as usize as int == idx as int);
        }
        let byte = mem.bytes[idx as usize];
        proof {
            assert(idx as int == ptr as int + offset as int);
            assert(byte == mem.bytes@[ptr as int + offset as int]);
        }
        if byte == 0 {
            proof {
                assert(user_cstring(mem.bytes@, ptr as int, offset as int) == Seq::<u8>::empty());
                assert(bytes@ + Seq::<u8>::empty() =~= bytes@);
            }
            break ;
        }
        bytes.push(byte);
        proof {
            assert(user_cstring(mem.bytes@, ptr as int, offset as int) == seq![
                mem.bytes@[ptr as int + offset as int],
            ] + user_cstring(mem.bytes@, ptr as int, offset as int + 1));
            assert(bytes@ + user_cstring(mem.bytes@, ptr as int, offset as int + 1)
                =~= path_arg(mem.bytes@, ptr));
        }
        offset = offset + 1;
    }
    bytes
}

/// Copies bytes into user memory at `ptr`, skipping anything that falls
/// outside the accessible range.
pub fn copy_to_user(mem: &mut UserMemory, ptr: u64, data: &[u8])
    ensures
        final(mem).bytes@ == write_bytes(old(mem).bytes@, ptr as int, data@),
{
    let n = data.len();
    let len = mem.bytes.len();
    let mut i: usize = 0;
    proof {
        assert(mem.bytes@ =~= Seq::new(
            old(mem).bytes@.len(),
            |k: int|
                if ptr <= k < ptr as int + 0 {
                    data@[k - ptr]
                } else {
                    old(mem).bytes@[k]
                },
        ));
    }
    while i < n
        invariant
            i <= n,
            n == data@.len(),
            len == mem.bytes@.len(),
            len == old(mem).bytes@.len(),
            mem.bytes@ == Seq::new(
                old(mem).bytes@.len(),
                |k: int|
                    if ptr <= k < ptr as int + i {
                        data@[k - ptr]
                    } else {
                        old(mem).bytes@[k]
                    },
            ),
        decreases n - i,
    {
        if ptr < len as u64 && (i as u64) < len as u64 - ptr {
            let idx = (ptr + i as u64) as usize;
            let ghost pre = mem.bytes@;
            mem.bytes[idx] = data[i];
            proof {
                assert(mem.bytes@ =~= Seq::new(
                    old(mem).bytes@.len(),
                    |k: int|
                        if ptr <= k < ptr as int + (i as int + 1) {
                            data@[k - ptr]
                        } else {
                            old(mem).bytes@[k]
                        },
                ));
            }
        } else {
            proof {
                assert(ptr as int + i >= len);
                assert(mem.bytes@ =~= Seq::new(
                    old(mem).bytes@.len(),
                    |k: int|
                        if ptr <= k < ptr as int + (i as int + 1) {
                            data@[k - ptr]
                        } else {
                            old(mem).bytes@[k]
                        },
                ));
            }
        }
        i += 1;
    }
    proof {
        assert(mem.bytes@ =~= write_bytes(old(mem).bytes@, ptr as int, data@));
    }
}

/// Relies on `core::str::from_utf8`: it succeeds exactly on valid UTF-8, and
/// the resulting slice holds the decoded characters of those same bytes.
#[verifier::external_body]
pub(crate) fn bytes_as_str(b: &[u8]) -> (r: Option<&str>)
    ensures
        r is Some <==> valid_utf8(b@),
        r matches Some(s) ==> s@ == decode_utf8(b@),
{
    core::str::from_utf8(b).ok()
}

/// The read stub: only descriptor 0 with a nonzero length reaches it, and it
/// only logs that it is unimplemented; every call returns zero bytes.
pub open spec fn sys_read_post(t0: Terminal, t1: Terminal, fd: u64, length: u64, r: u64) -> bool {
    &&& r == 0
    &&& t1.input_start == t0.input_start
    &&& (fd != 0 || length == 0) ==> t1 == t0
    &&& (fd == 0 && length != 0) ==> t1.out@ == t0.out@
        + "[SYSCALL] sys_read called - not yet implemented\n"@
}

pub fn sys_read(term: &mut Terminal, fd: u64, buffer_ptr: u64, length: u64) -> (r: u64)
    ensures
        sys_read_post(*old(term), *final(term), fd, length, r),
{
    if fd != 0 || length == 0 {
        return 0;
    }
    term.write("[SYSCALL] sys_read called - not yet implemented\n");
    0
}

/// Writing to standard output: any other descriptor is refused with the
/// sentinel; an unreadable or non-UTF-8 buffer writes nothing and returns 0;
/// valid text goes to the console and the requested length is returned.
pub open spec fn sys_write_post(
    t0: Terminal,
    t1: Terminal,
    mem: Seq<u8>,
    fd: u64,
    ptr: u64,
    length: u64,
    r: u64,
) -> bool {
    if fd != 1 {
        r == u64::MAX && t1 == t0
    } else if ptr as int + length as int > mem.len() {
        r == 0 && t1 == t0
    } else {
        let b = mem.subrange(ptr as int, ptr as int + length as int);
        if valid_utf8(b) {
            &&& r == length
            &&& t1.out@ == t0.out@ + decode_utf8(b)
            &&& t1.column == col_after(t0.column as nat, decode_utf8(b))
            &&& t1.input_start == t0.input_start
        } else {
            r == 0 && t1 == t0
        }
    }
}

pub fn sys_write(term: &mut Terminal, mem: &UserMemory, fd: u64, buffer_ptr: u64, length: u64) -> (r:
    u64)
    ensures
        sys_write_post(*old(term), *final(term), mem.bytes@, fd, buffer_ptr, length, r),
{
    if fd != 1 {
        return u64::MAX;
    }
    let len = mem.bytes.len();
    if buffer_ptr > len as u64 || length > len as u64 - buffer_ptr {
        return 0;
    }
    proof {
        assert(buffer_ptr as int + length as int <= mem.bytes@.len());
        assert(len <= usize::MAX);
    }
    let start = buffer_ptr as usize;
    let end = (buffer_ptr + length) as usize;
    let slice = vstd::slice::slice_subrange(mem.bytes.as_slice(), start, end);
    match bytes_as_str(slice) {
        Some(s) => {
            term.write(s);
            length
        },
        None => 0,
    }
}

/// Exiting halts the machine after logging the exit code.
pub open spec fn sys_exit_post(t0: Terminal, t1: Terminal, exit_code: u64, c: Control) -> bool {
    &&& c == Control::Halt
    &&& t1.input_start == t0.input_start
    &&& t1.out@ == t0.out@ + "[SYSCALL] User program exited with code: "@ + dec_str(
        exit_code as nat,
    ) + "\n"@ + "[SYSCALL] Halting - will implement proper process exit later\n"@
}

pub fn sys_exit(term: &mut Terminal, exit_code: u64) -> (c: Control)
    ensures
        sys_exit_post(*old(term), *final(term), exit_code, c),
{
    term.write("[SYSCALL] User program exited with code: ");
    let code = u64_to_dec(exit_code);
    term.write(code.as_str());
    term.write("\n");
    term.write("[SYSCALL] Halting - will implement proper process exit later\n");
    proof {
        assert(term.out@ =~= old(term).out@ + "[SYSCALL] User program exited with code: "@
            + dec_str(exit_code as nat) + "\n"@
            + "[SYSCALL] Halting - will implement proper process exit later\n"@);
    }
    Control::Halt
}

/// Yielding only logs; the scheduler decision itself lives with the executor.
pub open spec fn sys_yield_post(t0: Terminal, t1: Terminal, r: u64) -> bool {
    &&& r == 0
    &&& t1.input_start == t0.input_start
    &&& t1.out@ == t0.out@ + "[SYSCALL] Yield Called\n"@
}

pub fn sys_yield(term: &mut Terminal) -> (r: u64)
    ensures
        sys_yield_post(*old(term), *final(term), r),
{
    term.write("[SYSCALL] Yield Called\n");
    0
}

/// Opening a path: a fixed placeholder descriptor when the path resolves,
/// the sentinel otherwise; nothing changes.
pub open spec fn sys_open_post(fs: Option<RamFs>, mem: Seq<u8>, path_ptr: u64, r: u64) -> bool {
    let bytes = path_arg(mem, path_ptr);
    if bytes.len() == 0 || !valid_utf8(bytes) || fs is None {
        r == u64::MAX
    } else {
        r == if spec_stat(fs->0@, decode_utf8(bytes)) is Ok {
            3
        } else {
            u64::MAX
        }
    }
}

pub fn sys_open(fs: &Option<RamFs>, mem: &UserMemory, path_ptr: u64, flags: u64) -> (r: u64)
    requires
        fs matches Some(f) ==> f.inv(),
    ensures
        sys_open_post(*fs, mem.bytes@, path_ptr, r),
{
    let path_bytes = read_string_from_user(mem, path_ptr);
    if path_bytes.len() == 0 {
        return u64::MAX;
    }
    match bytes_as_str(path_bytes.as_slice()) {
        Some(path) => {
            match fs {
                Some(f) => {
                    match f.stat(path) {
                        Ok(_) => 3,
                        Err(_) => u64::MAX,
                    }
                },
                None => u64::MAX,
            }
        },
        None => u64::MAX,
    }
}

/// Closing always succeeds in this snapshot.
pub fn sys_close(fd: u64) -> (r: u64)
    ensures
        r == 0,
{
    0
}

/// One little-endian byte of a 64-bit value.
pub open spec fn le_byte(n: u64, i: int) -> u8 {
    ((n >> ((8 * i) as u64)) & 0xff) as u8
}

/// The 9-byte stat record: one type byte, then the size in little-endian order.
pub open spec fn stat_record(v: INodeV) -> Seq<u8> {
    let tb: u8 = if v.file_type == FileType::Directory {
        1
    } else {
        0
    };
    let sz = v.size as u64;
    seq![
        tb,
        le_byte(sz, 0),
        le_byte(sz, 1),
        le_byte(sz, 2),
        le_byte(sz, 3),
        le_byte(sz, 4),
        le_byte(sz, 5),
        le_byte(sz, 6),
        le_byte(sz, 7),
    ]
}

/// Stat: on success the 9-byte record lands at the caller's buffer and the
/// result is zero; otherwise the sentinel comes back and memory is untouched.
pub open spec fn sys_stat_post(
    fs: Option<RamFs>,
    mem0: Seq<u8>,
    mem1: Seq<u8>,
    path_ptr: u64,
    statbuf_ptr: u64,
    r: u64,
) -> bool {
    let bytes = path_arg(mem0, path_ptr);
    if bytes.len() == 0 || !valid_utf8(bytes) || fs is None {
        r == u64::MAX && mem1 == mem0
    } else {
        match spec_stat(fs->0@, decode_utf8(bytes)) {
            Ok(v) => r == 0 && mem1 == write_bytes(mem0, statbuf_ptr as int, stat_record(v)),
            Err(_) => r == u64::MAX && mem1 == mem0,
        }
    }
}

pub fn sys_stat(fs: &Option<RamFs>, mem: &mut UserMemory, path_ptr: u64, statbuf_ptr: u64) -> (r:
    u64)
    requires
        fs matches Some(f) ==> f.inv(),
    ensures
        sys_stat_post(*fs, old(mem).bytes@, final(mem).bytes@, path_ptr, statbuf_ptr, r),
{
    let path_bytes = read_string_from_user(mem, path_ptr);
    if path_bytes.len() == 0 {
        return u64::MAX;
    }
    match bytes_as_str(path_bytes.as_slice()) {
        Some(path) => {
            match fs {
                Some(f) => {
                    match f.stat(path) {
                        Ok(inode) => {
                            let file_type: u8 = match inode.file_type {
                                FileType::Directory => 1,
                                FileType::File => 0,
                            };
                            let sz = inode.size as u64;
                            let mut stat_data: Vec<u8> = Vec::new();
                            stat_data.push(file_type);
                            stat_data.push((sz & 0xff) as u8);
                            stat_data.push(((sz >> 8) & 0xff) as u8);
                            stat_data.push(((sz >> 16) & 0xff) as u8);
                            stat_data.push(((sz >> 24) & 0xff) as u8);
                            stat_data.push(((sz >> 32) & 0xff) as u8);
                            stat_data.push(((sz >> 40) & 0xff) as u8);
                            stat_data.push(((sz >> 48) & 0xff) as u8);
                            stat_data.push(((sz >> 56) & 0xff) as u8);
                            proof {
                                assert((sz >> 0u64) == sz) by (bit_vector);
                                assert(stat_data@ =~= stat_record(inode@));
                            }
                            copy_to_user(mem, statbuf_ptr, stat_data.as_slice());
                            0
                        },
                        Err(_) => u64::MAX,
                    }
                },
                None => u64::MAX,
            }
        },
        None => u64::MAX,
    }
}

/// One listing line: the type character, the size padded to eight columns,
/// and the entry's name.
pub open spec fn dir_line(v: INodeV) -> Seq<char> {
    (if v.file_type == FileType::Directory {
        seq!['d']
    } else {
        seq!['f']
    }) + seq![' '] + padded(dec_str(v.size), 8) + seq![' '] + v.name + seq!['\n']
}

/// The listing text: one line per entry, in order.
pub open spec fn readdir_text(entries: Seq<INodeV>) -> Seq<char>
    decreases entries.len(),
{
    if entries.len() == 0 {
        Seq::empty()
    } else {
        readdir_text(entries.drop_last()) + dir_line(entries.last())
    }
}

/// Renders a directory listing, one line per entry in listing order.
pub fn listing_string(entries: &Vec<INode>) -> (r: String)
    ensures
        r@ == readdir_text(entries.deep_view()),
{
    let ghost dv = entries.deep_view();
    let mut output = String::new();
    let count = entries.len();
    let mut j: usize = 0;
    proof {
        assert(dv.take(0) =~= Seq::<INodeV>::empty());
        assert(output@ =~= readdir_text(dv.take(0)));
    }
    while j < count
        invariant
            j <= count,
            count == entries@.len(),
            dv == entries.deep_view(),
            output@ == readdir_text(dv.take(j as int)),
        decreases count - j,
    {
        let ghost prev = output@;
        let entry = &entries[j];
        match entry.file_type {
            FileType::Directory => output.append("d"),
            FileType::File => output.append("f"),
        }
        output.append(" ");
        let size_text = pad_left(u64_to_dec(entry.size as u64), 8);
        output.append(size_text.as_str());
        output.append(" ");
        output.append(entry.name.as_str());
        output.append("\n");
        proof {
            reveal_strlit("d");
            reveal_strlit("f");
            reveal_strlit(" ");
            reveal_strlit("\n");
            assert("d"@ =~= seq!['d']);
            assert("f"@ =~= seq!['f']);
            assert(" "@ =~= seq![' ']);
            assert("\n"@ =~= seq!['\n']);
            assert((entry.size as u64) as nat == dv[j as int].size);
            assert(output@ =~= prev + dir_line(dv[j as int]));
            assert(dv.take(j as int + 1).drop_last() =~= dv.take(j as int));
            assert(dv.take(j as int + 1).last() == dv[j as int]);
        }
        j += 1;
    }
    proof {
        assert(dv.take(count as int) =~= dv);
    }
    output
}

/// Reading a directory: the listing text, UTF-8 encoded, is copied into the
/// caller's buffer up to its capacity, and the copied length comes back.
pub open spec fn sys_readdir_post(
    fs: Option<RamFs>,
    mem0: Seq<u8>,
    mem1: Seq<u8>,
    path_ptr: u64,
    buffer_ptr: u64,
    buffer_size: u64,
    r: u64,
) -> bool {
    let bytes = path_arg(mem0, path_ptr);
    if bytes.len() == 0 || !valid_utf8(bytes) || fs is None {
        r == u64::MAX && mem1 == mem0
    } else {
        match spec_list_dir(fs->0@, decode_utf8(bytes)) {
            Ok(entries) => {
                let out = vstd::utf8::encode_utf8(readdir_text(entries));
                let copy_len: int = if out.len() <= buffer_size {
                    out.len() as int
                } else {
                    buffer_size as int
                };
                r == copy_len && mem1 == write_bytes(mem0, buffer_ptr as int, out.take(copy_len))
            },
            Err(_) => r == u64::MAX && mem1 == mem0,
        }
    }
}

pub fn sys_readdir(
    fs: &Option<RamFs>,
    mem: &mut UserMemory,
    path_ptr: u64,
    buffer_ptr: u64,
    buffer_size: u64,
) -> (r: u64)
    requires
        fs matches Some(f) ==> f.inv(),
    ensures
        sys_readdir_post(
            *fs,
            old(mem).bytes@,
            final(mem).bytes@,
            path_ptr,
            buffer_ptr,
            buffer_size,
            r,
        ),
{
    let path_bytes = read_string_from_user(mem, path_ptr);
    if path_bytes.len() == 0 {
        return u64::MAX;
    }
    match bytes_as_str(path_bytes.as_slice()) {
        Some(path) => {
            match fs {
                Some(f) => {
                    match f.list_dir(path) {
                        Ok(entries) => {
                            let output = listing_string(&entries);
                            let bytes = output.as_str().as_bytes();
                            let bl = bytes.len();
                            let copy_len: usize = if (bl as u64) <= buffer_size {
                                bl
                            } else {
                                buffer_size as usize
                            };
                            let part = vstd::slice::slice_subrange(bytes, 0, copy_len);
                            copy_to_user(mem, buffer_ptr, part);
                            copy_len as u64
                        },
                        Err(_) => u64::MAX,
                    }
                },
                None => u64::MAX,
            }
        },
        None => u64::MAX,
    }
}

/// Creating a directory over the syscall boundary: zero on success, the
/// sentinel otherwise — the error kind is deliberately not preserved.
pub open spec fn sys_mkdir_post(
    fs0: Option<RamFs>,
    fs1: Option<RamFs>,
    mem: Seq<u8>,
    path_ptr: u64,
    r: u64,
) -> bool {
    let bytes = path_arg(mem, path_ptr);
    if bytes.len() == 0 || !valid_utf8(bytes) || fs0 is None {
        r == u64::MAX && fs1 == fs0
    } else {
        let (m1, res) = spec_create(fs0->0@, decode_utf8(bytes), FileType::Directory);
        &&& fs1 is Some
        &&& fs1->0@ == m1
        &&& r == if res is Ok {
            0
        } else {
            u64::MAX
        }
    }
}

pub fn sys_mkdir(fs: &mut Option<RamFs>, mem: &UserMemory, path_ptr: u64) -> (r: u64)
    requires
        (*old(fs)) matches Some(f) ==> f.inv(),
    ensures
        (*final(fs)) matches Some(f) ==> f.inv(),
        sys_mkdir_post(*old(fs), *final(fs), mem.bytes@, path_ptr, r),
{
    let path_bytes = read_string_from_user(mem, path_ptr);
    if path_bytes.len() == 0 {
        return u64::MAX;
    }
    match bytes_as_str(path_bytes.as_slice()) {
        Some(path) => {
            match fs {
                Some(f) => {
                    match f.create_dir(path) {
                        Ok(_) => 0,
                        Err(_) => u64::MAX,
                    }
                },
                None => u64::MAX,
            }
        },
        None => u64::MAX,
    }
}

/// Creating an empty file over the syscall boundary: zero on success, the
/// sentinel otherwise — the error kind is deliberately not preserved.
pub open spec fn sys_touch_post(
    fs0: Option<RamFs>,
    fs1: Option<RamFs>,
    mem: Seq<u8>,
    path_ptr: u64,
    r: u64,
) -> bool {
    let bytes = path_arg(mem, path_ptr);
    if bytes.len() == 0 || !valid_utf8(bytes) || fs0 is None {
        r == u64::MAX && fs1 == fs0
    } else {
        let (m1, res) = spec_create(fs0->0@, decode_utf8(bytes), FileType::File);
        &&& fs1 is Some
        &&& fs1->0@ == m1
        &&& r == if res is Ok {
            0
        } else {
            u64::MAX
        }
    }
}

pub fn sys_touch(fs: &mut Option<RamFs>, mem: &UserMemory, path_ptr: u64) -> (r: u64)
    requires
        (*old(fs)) matches Some(f) ==> f.inv(),
    ensures
        (*final(fs)) matches Some(f) ==> f.inv(),
        sys_touch_post(*old(fs), *final(fs), mem.bytes@, path_ptr, r),
{
    let path_bytes = read_string_from_user(mem, path_ptr);
    if path_bytes.len() == 0 {
        return u64::MAX;
    }
    match bytes_as_str(path_bytes.as_slice()) {
        Some(path) => {
            match fs {
                Some(f) => {
                    match f.create_file(path) {
                        Ok(_) => 0,
                        Err(_) => u64::MAX,
                    }
                },
                None => u64::MAX,
            }
        },
        None => u64::MAX,
    }
}

/// Removing a node over the syscall boundary: zero on success, the sentinel
/// otherwise — the error kind is deliberately not preserved.
pub open spec fn sys_rm_post(
    fs0: Option<RamFs>,
    fs1: Option<RamFs>,
    mem: Seq<u8>,
    path_ptr: u64,
    r: u64,
) -> bool {
    let bytes = path_arg(mem, path_ptr);
    if bytes.len() == 0 || !valid_utf8(bytes) || fs0 is None {
        r == u64::MAX && fs1 == fs0
    } else {
        let (m1, res) = spec_remove(fs0->0@, decode_utf8(bytes));
        &&& fs1 is Some
        &&& fs1->0@ == m1
        &&& r == if res is Ok {
            0
        } else {
            u64::MAX
        }
    }
}

pub fn sys_rm(fs: &mut Option<RamFs>, mem: &UserMemory, path_ptr: u64) -> (r: u64)
    requires
        (*old(fs)) matches Some(f) ==> f.inv(),
    ensures
        (*final(fs)) matches Some(f) ==> f.inv(),
        sys_rm_post(*old(fs), *final(fs), mem.bytes@, path_ptr, r),
{
    let path_bytes = read_string_from_user(mem, path_ptr);
    if path_bytes.len() == 0 {
        return u64::MAX;
    }
    match bytes_as_str(path_bytes.as_slice()) {
        Some(path) => {
            match fs {
                Some(f) => {
                    match f.remove(path) {
                        Ok(_) => 0,
                        Err(_) => u64::MAX,
                    }
                },
                None => u64::MAX,
            }
        },
        None => u64::MAX,
    }
}

/// Clearing the screen.
pub fn sys_clear(term: &mut Terminal) -> (r: u64)
    ensures
        r == 0,
        final(term).out@ == old(term).out@ + Seq::new(25, |i: int| '\n'),
        final(term).column == 0,
        final(term).input_start == old(term).input_start,
{
    term.clear();
    0
}

/// Rebooting: the machine restart itself is the caller's irreversible action.
pub fn sys_reboot() -> (c: Control)
    ensures
        c == Control::Reboot,
{
    Control::Reboot
}

/// Whether a syscall number has a handler.
pub open spec fn known_syscall(n: u64) -> bool {
    n <= 12
}

/// What one dispatch does, for every number: which handler ran, over that
/// handler's own postcondition; an unrecognized number returns the all-bits-set
/// sentinel, logs one diagnostic line, and touches neither the filesystem nor
/// user memory.
pub open spec fn dispatch_post(
    st0: KernelState,
    st1: KernelState,
    mem0: Seq<u8>,
    mem1: Seq<u8>,
    number: u64,
    arg1: u64,
    arg2: u64,
    arg3: u64,
    value: u64,
    control: Control,
) -> bool {
    &&& control == (if number == SYS_EXIT {
        Control::Halt
    } else if number == SYS_REBOOT {
        Control::Reboot
    } else {
        Control::Proceed
    })
    &&& (number != SYS_MKDIR && number != SYS_TOUCH && number != SYS_RM ==> st1.fs == st0.fs)
    &&& (number != SYS_STAT && number != SYS_READDIR ==> mem1 == mem0)
    &&& (number == SYS_READ ==> sys_read_post(st0.term, st1.term, arg1, arg3, value))
    &&& (number == SYS_WRITE ==> sys_write_post(st0.term, st1.term, mem0, arg1, arg2, arg3, value))
    &&& (number == SYS_OPEN ==> sys_open_post(st0.fs, mem0, arg1, value) && st1.term == st0.term)
    &&& (number == SYS_CLOSE ==> value == 0 && st1 == st0)
    &&& (number == SYS_STAT ==> sys_stat_post(st0.fs, mem0, mem1, arg1, arg2, value) && st1.term
        == st0.term)
    &&& (number == SYS_READDIR ==> sys_readdir_post(st0.fs, mem0, mem1, arg1, arg2, arg3, value)
        && st1.term == st0.term)
    &&& (number == SYS_MKDIR ==> sys_mkdir_post(st0.fs, st1.fs, mem0, arg1, value) && st1.term
        == st0.term)
    &&& (number == SYS_TOUCH ==> sys_touch_post(st0.fs, st1.fs, mem0, arg1, value) && st1.term
        == st0.term)
    &&& (number == SYS_RM ==> sys_rm_post(st0.fs, st1.fs, mem0, arg1, value) && st1.term
        == st0.term)
    &&& (number == SYS_CLEAR ==> value == 0 && st1.term.out@ == st0.term.out@ + Seq::new(
        25,
        |i: int| '\n',
    ) && st1.term.column == 0 && st1.term.input_start == st0.term.input_start)
    &&& (number == SYS_REBOOT ==> st1 == st0)
    &&& (number == SYS_EXIT ==> sys_exit_post(st0.term, st1.term, arg1, control))
    &&& (number == SYS_YIELD ==> sys_yield_post(st0.term, st1.term, value))
    &&& (!known_syscall(number) ==> value == u64::MAX && st1.term.out@ == st0.term.out@
        + "[SYSCALL] Unknown syscall: "@ + dec_str(number as nat) + "\n"@
        && st1.term.input_start == st0.term.input_start)
}

/// The dispatcher: routes a numbered request to its handler.
pub fn syscall_handler(
    st: &mut KernelState,
    mem: &mut UserMemory,
    syscall_number: u64,
    arg1: u64,
    arg2: u64,
    arg3: u64,
) -> (out: SysOutcome)
    requires
        old(st).inv(),
    ensures
        final(st).inv(),
        dispatch_post(
            *old(st),
            *final(st),
            old(mem).bytes@,
            final(mem).bytes@,
            syscall_number,
            arg1,
            arg2,
            arg3,
            out.value,
            out.control,
        ),
{
    match syscall_number {
        SYS_READ => {
            let v = sys_read(&mut st.term, arg1, arg2, arg3);
            SysOutcome { value: v, control: Control::Proceed }
        },
        SYS_WRITE => {
            let v = sys_write(&mut st.term, mem, arg1, arg2, arg3);
            SysOutcome { value: v, control: Control::Proceed }
        },
        SYS_EXIT => {
            let c = sys_exit(&mut st.term, arg1);
            SysOutcome { value: 0, control: c }
        },
        SYS_YIELD => {
            let v = sys_yield(&mut st.term);
            SysOutcome { value: v, control: Control::Proceed }
        },
        SYS_OPEN => {
            let v = sys_open(&st.fs, mem, arg1, arg2);
            SysOutcome { value: v, control: Control::Proceed }
        },
        SYS_CLOSE => {
            let v = sys_close(arg1);
            SysOutcome { value: v, control: Control::Proceed }
        },
        SYS_READDIR => {
            let v = sys_readdir(&st.fs, mem, arg1, arg2, arg3);
            SysOutcome { value: v, control: Control::Proceed }
        },
        SYS_STAT => {
            let v = sys_stat(&st.fs, mem, arg1, arg2);
            SysOutcome { value: v, control: Control::Proceed }
        },
        SYS_MKDIR => {
            let v = sys_mkdir(&mut st.fs, mem, arg1);
            SysOutcome { value: v, control: Control::Proceed }
        },
        SYS_TOUCH => {
            let v = sys_touch(&mut st.fs, mem, arg1);
            SysOutcome { value: v, control: Control::Proceed }
        },
        SYS_RM => {
            let v = sys_rm(&mut st.fs, mem, arg1);
            SysOutcome { value: v, control: Control::Proceed }
        },
        SYS_CLEAR => {
            let v = sys_clear(&mut st.term);
            SysOutcome { value: v, control: Control::Proceed }
        },
        SYS_REBOOT => {
            let c = sys_reboot();
            SysOutcome { value: 0, control: c }
        },
        _ => {
            st.term.write("[SYSCALL] Unknown syscall: ");
            let d = u64_to_dec(syscall_number);
            st.term.write(d.as_str());
            st.term.write("\n");
            proof {
                assert(st.term.out@ =~= old(st).term.out@ + "[SYSCALL] Unknown syscall: "@
                    + dec_str(syscall_number as nat) + "\n"@);
            }
            SysOutcome { value: u64::MAX, control: Control::Proceed }
        },
    }
}

} // verus!

//! The interactive shell's command logic: a line is split on whitespace, the
//! first word picks a command, and each command's output goes to the console.
//! Reading lines and the reboot itself belong to the surrounding runtime.
use vstd::prelude::*;
use vstd::string::StrSliceExecFns;
use vstd::string::StringExecFns;
use vstd::utf8::{valid_utf8, decode_utf8, encode_utf8};
use crate::ramfs::RamFs;
use crate::terminal::{Terminal, col_after};
use crate::strutil::str_eq;
use crate::paths::normalize_spec;
use crate::vfs::{
    FileType, INodeV, fs_error_text, spec_create, spec_remove, spec_read_file, spec_write_file,
    spec_stat, spec_list_dir,
};
use crate::syscall::{listing_string, readdir_text, bytes_as_str};
use crate::fmt::{u64_to_dec, dec_str};

verus! {

/// The Unicode whitespace characters a line is split on.
pub open spec fn is_space_char(c: char) -> bool {
    let u = c as u32;
    ||| u == 0x09
    ||| u == 0x0a
    ||| u == 0x0b
    ||| u == 0x0c
    ||| u == 0x0d
    ||| u == 0x20
    ||| u == 0x85
    ||| u == 0xa0
    ||| u == 0x1680
    ||| (0x2000 <= u && u <= 0x200a)
    ||| u == 0x2028
    ||| u == 0x2029
    ||| u == 0x202f
    ||| u == 0x205f
    ||| u == 0x3000
}

/// Whether a character counts as whitespace for word splitting.
pub fn is_space(c: char) -> (r: bool)
    ensures
        r == is_space_char(c),
{
    let u = c as u32;
    u == 0x09 || u == 0x0a || u == 0x0b || u == 0x0c || u == 0x0d || u == 0x20 || u == 0x85 || u
        == 0xa0 || u == 0x1680 || (0x2000 <= u && u <= 0x200a) || u == 0x2028 || u == 0x2029 || u
        == 0x202f || u == 0x205f || u == 0x3000
}

/// Length of the leading run of non-whitespace characters.
pub open spec fn word_len(s: Seq<char>) -> nat
    decreases s.len(),
{
    if s.len() == 0 || is_space_char(s[0]) {
        0
    } else {
        (1 + word_len(s.drop_first())) as nat
    }
}

pub proof fn lemma_word_len(s: Seq<char>)
    ensures
        word_len(s) <= s.len(),
        forall|i: int| 0 <= i < word_len(s) ==> !is_space_char(s[i]),
        word_len(s) < s.len() ==> is_space_char(s[word_len(s) as int]),
    decreases s.len(),
{
    if s.len() == 0 || is_space_char(s[0]) {
    } else {
        lemma_word_len(s.drop_first());
        assert forall|i: int| 0 <= i < word_len(s) implies !is_space_char(s[i]) by {
            if i > 0 {
                assert(!is_space_char(s.drop_first()[i - 1]));
            }
        }
        if word_len(s) < s.len() {
            assert(s[word_len(s) as int] == s.drop_first()[word_len(s.drop_first()) as int]);
        }
    }
}

/// The whitespace-separated words of a line, in order.
pub open spec fn words(s: Seq<char>) -> Seq<Seq<char>>
    decreases s.len(),
    via words_dec
{
    if s.len() == 0 {
        Seq::empty()
    } else if is_space_char(s[0]) {
        words(s.drop_first())
    } else {
        seq![s.take(word_len(s) as int)] + words(s.skip(word_len(s) as int))
    }
}

#[via_fn]
proof fn words_dec(s: Seq<char>) {
    if s.len() != 0 && !is_space_char(s[0]) {
        lemma_word_len(s);
        assert(word_len(s) == 1 + word_len(s.drop_first()));
    }
}

/// A maximal leading non-whitespace run of length `k` is what `word_len` measures.
pub proof fn lemma_word_extract(s: Seq<char>, k: int)
    requires
        0 < k <= s.len(),
        forall|i: int| 0 <= i < k ==> !is_space_char(s[i]),
        k == s.len() || is_space_char(s[k]),
    ensures
        word_len(s) == k,
    decreases k,
{
    assert(!is_space_char(s[0]));
    if k == 1 {
        lemma_word_len(s.drop_first());
        if s.len() > 1 {
            assert(s.drop_first()[0] == s[1]);
            assert(word_len(s.drop_first()) == 0);
        }
    } else {
        let t = s.drop_first();
        assert forall|i: int| 0 <= i < k - 1 implies !is_space_char(t[i]) by {
            assert(t[i] == s[i + 1]);
        }
        if k - 1 < t.len() {
            assert(t[k - 1] == s[k]);
        }
        lemma_word_extract(t, k - 1);
    }
}

/// Splits a line into its whitespace-separated words.
pub fn split_words(line: &str) -> (parts: Vec<String>)
    ensures
        parts.deep_view() == words(line@),
{
    let n = line.unicode_len();
    let mut parts: Vec<String> = Vec::new();
    let mut i: usize = 0;
    proof {
        assert(line@.skip(0) =~= line@);
    }
    while i < n
        invariant
            i <= n,
            n == line@.len(),
            words(line@) == parts.deep_view() + words(line@.skip(i as int)),
        decreases n - i,
    {
        let c = line.get_char(i);
        if is_space(c) {
            proof {
                assert(line@.skip(i as int).drop_first() =~= line@.skip(i as int + 1));
            }
            i += 1;
        } else {
            let start = i;
            i += 1;
            while i < n && !is_space(line.get_char(i))
                invariant
                    start < i <= n,
                    n == line@.len(),
                    forall|t: int| start <= t < i ==> !is_space_char(line@[t]),
                decreases n - i,
            {
                i += 1;
            }
            let word = line.substring_char(start, i);
            let ghost old_parts = parts.deep_view();
            parts.push(word.to_owned());
            proof {
                let rest = line@.skip(start as int);
                let k = (i - start) as int;
                assert forall|t: int| 0 <= t < k implies !is_space_char(rest[t]) by {
                    assert(rest[t] == line@[start + t]);
                }
                if k < rest.len() {
                    assert(rest[k] == line@[i as int]);
                }
                lemma_word_extract(rest, k);
                assert(rest.take(k) =~= word@);
                assert(rest.skip(k) =~= line@.skip(i as int));
                assert(words(rest) == seq![word@] + words(line@.skip(i as int)));
                assert(parts.deep_view() =~= old_parts.push(word@));
                assert(old_parts.push(word@) + words(line@.skip(i as int)) =~= old_parts + words(
                    rest,
                ));
            }
        }
    }
    proof {
        assert(line@.skip(n as int) =~= Seq::<char>::empty());
        assert(parts.deep_view() + words(line@.skip(n as int)) =~= parts.deep_view());
    }
    parts
}

/// What the shell does after a command: keep reading, or reboot the machine.
#[derive(Clone, Copy, Debug, PartialEq, Eq, Structural)]
pub enum ShellAction {
    Continue,
    Reboot,
}

/// The console effect of writing exactly `text`.
pub open spec fn wrote(t0: Terminal, t1: Terminal, text: Seq<char>) -> bool {
    &&& t1.out@ == t0.out@ + text
    &&& t1.column == col_after(t0.column as nat, text)
    &&& t1.input_start == t0.input_start
}

/// The help screen, line by line.
pub open spec fn help_text() -> Seq<char> {
    "Available commands:\n"@ + "  help         - show this message\n"@
        + "  clear        - clear screen\n"@ + "  echo <text>  - print text\n"@
        + "  reboot       - reboot machine\n"@ + "  ls [path]    - list directory contents\n"@
        + "  cat <file>   - display file contents\n"@ + "  mkdir <dir>  - create directory\n"@
        + "  touch <file> - create empty file\n"@
        + "  rm <path>    - remove file or empty directory\n"@
        + "  write <file> <text> - write text to file\n"@
        + "  stat <path>  - show file/directory information\n"@
}

pub fn cmd_help(term: &mut Terminal)
    ensures
        wrote(*old(term), *final(term), help_text()),
{
    let mut msg = String::new();
    msg.append("Available commands:\n");
    msg.append("  help         - show this message\n");
    msg.append("  clear        - clear screen\n");
    msg.append("  echo <text>  - print text\n");
    msg.append("  reboot       - reboot machine\n");
    msg.append("  ls [path]    - list directory contents\n");
    msg.append("  cat <file>   - display file contents\n");
    msg.append("  mkdir <dir>  - create directory\n");
    msg.append("  touch <file> - create empty file\n");
    msg.append("  rm <path>    - remove file or empty directory\n");
    msg.append("  write <file> <text> - write text to file\n");
    msg.append("  stat <path>  - show file/directory information\n");
    proof {
        assert(msg@ =~= help_text());
    }
    term.write(msg.as_str());
}

/// Each argument followed by one space.
pub open spec fn echo_args(ws: Seq<Seq<char>>) -> Seq<char>
    decreases ws.len(),
{
    if ws.len() == 0 {
        Seq::empty()
    } else {
        echo_args(ws.drop_last()) + ws.last() + seq![' ']
    }
}

/// What `echo` prints: its arguments, space-separated, then a newline.
pub open spec fn echo_text(ws: Seq<Seq<char>>) -> Seq<char> {
    echo_args(ws) + seq!['\n']
}

pub fn cmd_echo(term: &mut Terminal, args: &Vec<String>)
    ensures
        wrote(*old(term), *final(term), echo_text(args.deep_view())),
{
    let ghost dv = args.deep_view();
    let mut msg = String::new();
    let n = args.len();
    let mut i: usize = 0;
    proof {
        assert(dv.take(0) =~= Seq::<Seq<char>>::empty());
        assert(msg@ =~= echo_args(dv.take(0)));
    }
    while i < n
        invariant
            i <= n,
            n == args@.len(),
            dv == args.deep_view(),
            msg@ == echo_args(dv.take(i as int)),
        decreases n - i,
    {
        let ghost prev = msg@;
        msg.append(args[i].as_str());
        msg.append(" ");
        proof {
            reveal_strlit(" ");
            assert(" "@ =~= seq![' ']);
            assert(dv.take(i as int + 1).drop_last() =~= dv.take(i as int));
            assert(dv.take(i as int + 1).last() == dv[i as int]);
            assert(msg@ =~= echo_args(dv.take(i as int + 1)));
        }
        i += 1;
    }
    msg.append("\n");
    proof {
        reveal_strlit("\n");
        assert("\n"@ =~= seq!['\n']);
        assert(dv.take(n as int) =~= dv);
        assert(msg@ =~= echo_text(dv));
    }
    term.write(msg.as_str());
}

pub fn cmd_reboot(term: &mut Terminal) -> (act: ShellAction)
    ensures
        act == ShellAction::Reboot,
        wrote(*old(term), *final(term), "Rebooting...\n"@),
{
    term.write("Rebooting...\n");
    ShellAction::Reboot
}

/// What `ls` prints: the listing of the path (or the root), one line per
/// entry, a placeholder for an empty directory, or the error's message.
pub open spec fn cmd_ls_post(
    fs: Option<RamFs>,
    t0: Terminal,
    t1: Terminal,
    args: Seq<Seq<char>>,
) -> bool {
    let path = if args.len() == 0 {
        "/"@
    } else {
        args[0]
    };
    match fs {
        None => wrote(t0, t1, "filesystem not initialized\n"@),
        Some(f) => match spec_list_dir(f@, path) {
            Ok(entries) => if entries.len() == 0 {
                wrote(t0, t1, "(empty)\n"@)
            } else {
                wrote(t0, t1, readdir_text(entries))
            },
            Err(e) => wrote(t0, t1, "ls: "@ + fs_error_text(e) + "\n"@),
        },
    }
}

pub fn cmd_ls(fs: &Option<RamFs>, term: &mut Terminal, args: &Vec<String>)
    requires
        fs matches Some(f) ==> f.inv(),
    ensures
        cmd_ls_post(*fs, *old(term), *final(term), args.deep_view()),
{
    match fs {
        None => {
            term.write("filesystem not initialized\n");
        },
        Some(f) => {
            let r = if args.len() == 0 {
                f.list_dir("/")
            } else {
                f.list_dir(args[0].as_str())
            };
            match r {
                Ok(entries) => {
                    if entries.len() == 0 {
                        term.write("(empty)\n");
                    } else {
                        let text = listing_string(&entries);
                        term.write(text.as_str());
                    }
                },
                Err(e) => {
                    let mut msg = String::new();
                    msg.append("ls: ");
                    msg.append(e.message());
                    msg.append("\n");
                    term.write(msg.as_str());
                },
            }
        },
    }
}

/// What `cat` prints: the file's text and a newline, or a note that the file
/// is not text, or the error's message.
pub open spec fn cmd_cat_post(
    fs: Option<RamFs>,
    t0: Terminal,
    t1: Terminal,
    args: Seq<Seq<char>>,
) -> bool {
    if args.len() == 0 {
        wrote(t0, t1, "cat: missing file operand\n"@)
    } else {
        match fs {
            None => wrote(t0, t1, "filesystem not initialized\n"@),
            Some(f) => match spec_read_file(f@, args[0]) {
                Ok(data) => if valid_utf8(data) {
                    wrote(t0, t1, decode_utf8(data) + seq!['\n'])
                } else {
                    wrote(t0, t1, "cat: file contains non-UTF8 data\n"@)
                },
                Err(e) => wrote(t0, t1, "cat: "@ + fs_error_text(e) + "\n"@),
            },
        }
    }
}

pub fn cmd_cat(fs: &Option<RamFs>, term: &mut Terminal, args: &Vec<String>)
    requires
        fs matches Some(f) ==> f.inv(),
    ensures
        cmd_cat_post(*fs, *old(term), *final(term), args.deep_view()),
{
    if args.len() == 0 {
        term.write("cat: missing file operand\n");
        return ;
    }
    match fs {
        None => {
            term.write("filesystem not initialized\n");
        },
        Some(f) => {
            match f.read_file(args[0].as_str()) {
                Ok(data) => {
                    match bytes_as_str(data.as_slice()) {
                        Some(s) => {
                            let mut msg = String::new();
                            msg.append(s);
                            msg.append("\n");
                            proof {
                                reveal_strlit("\n");
                                assert("\n"@ =~= seq!['\n']);
                            }
                            term.write(msg.as_str());
                        },
                        None => {
                            term.write("cat: file contains non-UTF8 data\n");
                        },
                    }
                },
                Err(e) => {
                    let mut msg = String::new();
                    msg.append("cat: ");
                    msg.append(e.message());
                    msg.append("\n");
                    term.write(msg.as_str());
                },
            }
        },
    }
}

/// What `mkdir` does: creates the directory and stays silent, or prints the
/// error's message.
pub open spec fn cmd_mkdir_post(
    fs0: Option<RamFs>,
    fs1: Option<RamFs>,
    t0: Terminal,
    t1: Terminal,
    args: Seq<Seq<char>>,
) -> bool {
    if args.len() == 0 {
        fs1 == fs0 && wrote(t0, t1, "mkdir: missing operand\n"@)
    } else {
        match fs0 {
            None => fs1 == fs0 && wrote(t0, t1, "filesystem not initialized\n"@),
            Some(f0) => {
                let (m1, res) = spec_create(f0@, args[0], FileType::Directory);
                &&& fs1 is Some
                &&& fs1->0@ == m1
                &&& match res {
                    Ok(_) => t1 == t0,
                    Err(e) => wrote(t0, t1, "mkdir: "@ + fs_error_text(e) + "\n"@),
                }
            },
        }
    }
}

pub fn cmd_mkdir(fs: &mut Option<RamFs>, term: &mut Terminal, args: &Vec<String>)
    requires
        (*old(fs)) matches Some(f) ==> f.inv(),
    ensures
        (*final(fs)) matches Some(f) ==> f.inv(),
        cmd_mkdir_post(*old(fs), *final(fs), *old(term), *final(term), args.deep_view()),
{
    if args.len() == 0 {
        term.write("mkdir: missing operand\n");
        return ;
    }
    match fs {
        None => {
            term.write("filesystem not initialized\n");
        },
        Some(f) => {
            match f.create_dir(args[0].as_str()) {
                Ok(_) => {},
                Err(e) => {
                    let mut msg = String::new();
                    msg.append("mkdir: ");
                    msg.append(e.message());
                    msg.append("\n");
                    term.write(msg.as_str());
                },
            }
        },
    }
}

/// What `touch` does: creates the empty file and stays silent, or prints the
/// error's message.
pub open spec fn cmd_touch_post(
    fs0: Option<RamFs>,
    fs1: Option<RamFs>,
    t0: Terminal,
    t1: Terminal,
    args: Seq<Seq<char>>,
) -> bool {
    if args.len() == 0 {
        fs1 == fs0 && wrote(t0, t1, "touch: missing operand\n"@)
    } else {
        match fs0 {
            None => fs1 == fs0 && wrote(t0, t1, "filesystem not initialized\n"@),
            Some(f0) => {
                let (m1, res) = spec_create(f0@, args[0], FileType::File);
                &&& fs1 is Some
                &&& fs1->0@ == m1
                &&& match res {
                    Ok(_) => t1 == t0,
                    Err(e) => wrote(t0, t1, "touch: "@ + fs_error_text(e) + "\n"@),
                }
            },
        }
    }
}

pub fn cmd_touch(fs: &mut Option<RamFs>, term: &mut Terminal, args: &Vec<String>)
    requires
        (*old(fs)) matches Some(f) ==> f.inv(),
    ensures
        (*final(fs)) matches Some(f) ==> f.inv(),
        cmd_touch_post(*old(fs), *final(fs), *old(term), *final(term), args.deep_view()),
{
    if args.len() == 0 {
        term.write("touch: missing operand\n");
        return ;
    }
    match fs {
        None => {
            term.write("filesystem not initialized\n");
        },
        Some(f) => {
            match f.create_file(args[0].as_str()) {
                Ok(_) => {},
                Err(e) => {
                    let mut msg = String::new();
                    msg.append("touch: ");
                    msg.append(e.message());
                    msg.append("\n");
                    term.write(msg.as_str());
                },
            }
        },
    }
}

/// What `rm` does: removes the node and stays silent, or prints the error's
/// message.
pub open spec fn cmd_rm_post(
    fs0: Option<RamFs>,
    fs1: Option<RamFs>,
    t0: Terminal,
    t1: Terminal,
    args: Seq<Seq<char>>,
) -> bool {
    if args.len() == 0 {
        fs1 == fs0 && wrote(t0, t1, "rm: missing operand\n"@)
    } else {
        match fs0 {
            None => fs1 == fs0 && wrote(t0, t1, "filesystem not initialized\n"@),
            Some(f0) => {
                let (m1, res) = spec_remove(f0@, args[0]);
                &&& fs1 is Some
                &&& fs1->0@ == m1
                &&& match res {
                    Ok(_) => t1 == t0,
                    Err(e) => wrote(t0, t1, "rm: "@ + fs_error_text(e) + "\n"@),
                }
            },
        }
    }
}

pub fn cmd_rm(fs: &mut Option<RamFs>, term: &mut Terminal, args: &Vec<String>)
    requires
        (*old(fs)) matches Some(f) ==> f.inv(),
    ensures
        (*final(fs)) matches Some(f) ==> f.inv(),
        cmd_rm_post(*old(fs), *final(fs), *old(term), *final(term), args.deep_view()),
{
    if args.len() == 0 {
        term.write("rm: missing operand\n");
        return ;
    }
    match fs {
        None => {
            term.write("filesystem not initialized\n");
        },
        Some(f) => {
            match f.remove(args[0].as_str()) {
                Ok(_) => {},
                Err(e) => {
                    let mut msg = String::new();
                    msg.append("rm: ");
                    msg.append(e.message());
                    msg.append("\n");
                    term.write(msg.as_str());
                },
            }
        },
    }
}

/// The words joined with single spaces, no trailing separator.
pub open spec fn join_words(ws: Seq<Seq<char>>) -> Seq<char>
    decreases ws.len(),
{
    if ws.len() == 0 {
        Seq::empty()
    } else if ws.len() == 1 {
        ws[0]
    } else {
        join_words(ws.drop_last()) + seq![' '] + ws.last()
    }
}

/// What `write` does: creates the file if it is missing, then replaces its
/// content with the remaining arguments joined by single spaces; any failure
/// prints the error's message and nothing further happens.
pub open spec fn cmd_write_post(
    fs0: Option<RamFs>,
    fs1: Option<RamFs>,
    t0: Terminal,
    t1: Terminal,
    args: Seq<Seq<char>>,
) -> bool {
    if args.len() < 2 {
        fs1 == fs0 && wrote(t0, t1, "write: missing operands\n"@ + "usage: write <file> <text>\n"@)
    } else {
        match fs0 {
            None => fs1 == fs0 && wrote(t0, t1, "filesystem not initialized\n"@),
            Some(f0) => {
                let filename = args[0];
                let text = join_words(args.skip(1));
                let m0 = f0@;
                let created = if !m0.contains_key(normalize_spec(filename)) {
                    spec_create(m0, filename, FileType::File)
                } else {
                    (m0, Ok(()))
                };
                match created.1 {
                    Err(e) => {
                        &&& fs1 is Some
                        &&& fs1->0@ == created.0
                        &&& wrote(t0, t1, "write: "@ + fs_error_text(e) + "\n"@)
                    },
                    Ok(_) => {
                        let (m2, res) = spec_write_file(created.0, filename, encode_utf8(text));
                        &&& fs1 is Some
                        &&& fs1->0@ == m2
                        &&& match res {
                            Ok(_) => t1 == t0,
                            Err(e) => wrote(t0, t1, "write: "@ + fs_error_text(e) + "\n"@),
                        }
                    },
                }
            },
        }
    }
}

pub fn cmd_write(fs: &mut Option<RamFs>, term: &mut Terminal, args: &Vec<String>)
    requires
        (*old(fs)) matches Some(f) ==> f.inv(),
    ensures
        (*final(fs)) matches Some(f) ==> f.inv(),
        cmd_write_post(*old(fs), *final(fs), *old(term), *final(term), args.deep_view()),
{
    if args.len() < 2 {
        let mut msg = String::new();
        msg.append("write: missing operands\n");
        msg.append("usage: write <file> <text>\n");
        term.write(msg.as_str());
        return ;
    }
    let ghost dv = args.deep_view();
    let filename = &args[0];
    let mut text = String::new();
    let n = args.len();
    let mut i: usize = 1;
    proof {
        assert(dv.skip(1).take(0) =~= Seq::<Seq<char>>::empty());
        assert(text@ =~= join_words(dv.skip(1).take(0)));
    }
    while i < n
        invariant
            1 <= i <= n,
            n == args@.len(),
            dv == args.deep_view(),
            text@ == join_words(dv.skip(1).take(i as int - 1)),
        decreases n - i,
    {
        let ghost prev = text@;
        if i > 1 {
            text.append(" ");
        }
        text.append(args[i].as_str());
        proof {
            reveal_strlit(" ");
            assert(" "@ =~= seq![' ']);
            let tl = dv.skip(1);
            assert(tl.take(i as int).drop_last() =~= tl.take(i as int - 1));
            assert(tl.take(i as int).last() == tl[i as int - 1]);
            assert(tl[i as int - 1] == dv[i as int]);
            assert(text@ =~= join_words(tl.take(i as int)));
        }
        i += 1;
    }
    proof {
        assert(dv.skip(1).take(n as int - 1) =~= dv.skip(1));
    }
    match fs {
        None => {
            term.write("filesystem not initialized\n");
        },
        Some(f) => {
            if !f.path_exists(filename.as_str()) {
                match f.create_file(filename.as_str()) {
                    Ok(_) => {},
                    Err(e) => {
                        let mut msg = String::new();
                        msg.append("write: ");
                        msg.append(e.message());
                        msg.append("\n");
                        term.write(msg.as_str());
                        return ;
                    },
                }
            }
            match f.write_file(filename.as_str(), text.as_str().as_bytes()) {
                Ok(_) => {},
                Err(e) => {
                    let mut msg = String::new();
                    msg.append("write: ");
                    msg.append(e.message());
                    msg.append("\n");
                    term.write(msg.as_str());
                },
            }
        },
    }
}

/// What `stat` prints about one node.
pub open spec fn stat_text(v: INodeV) -> Seq<char> {
    "  File: "@ + v.name + "\n  Type: "@ + (if v.file_type == FileType::Directory {
        "directory"@
    } else {
        "file"@
    }) + "\n  Size: "@ + dec_str(v.size) + " bytes\n"@
}

/// What `stat` prints: the node's name, type and size, or the error's message.
pub open spec fn cmd_stat_post(
    fs: Option<RamFs>,
    t0: Terminal,
    t1: Terminal,
    args: Seq<Seq<char>>,
) -> bool {
    if args.len() == 0 {
        wrote(t0, t1, "stat: missing operand\n"@)
    } else {
        match fs {
            None => wrote(t0, t1, "filesystem not initialized\n"@),
            Some(f) => match spec_stat(f@, args[0]) {
                Ok(v) => wrote(t0, t1, stat_text(v)),
                Err(e) => wrote(t0, t1, "stat: "@ + fs_error_text(e) + "\n"@),
            },
        }
    }
}

pub fn cmd_stat(fs: &Option<RamFs>, term: &mut Terminal, args: &Vec<String>)
    requires
        fs matches Some(f) ==> f.inv(),
    ensures
        cmd_stat_post(*fs, *old(term), *final(term), args.deep_view()),
{
    if args.len() == 0 {
        term.write("stat: missing operand\n");
        return ;
    }
    match fs {
        None => {
            term.write("filesystem not initialized\n");
        },
        Some(f) => {
            match f.stat(args[0].as_str()) {
                Ok(info) => {
                    let mut msg = String::new();
                    msg.append("  File: ");
                    msg.append(info.name.as_str());
                    msg.append("\n  Type: ");
                    match info.file_type {
                        FileType::Directory => msg.append("directory"),
                        FileType::File => msg.append("file"),
                    }
                    msg.append("\n  Size: ");
                    let size_text = u64_to_dec(info.size as u64);
                    msg.append(size_text.as_str());
                    msg.append(" bytes\n");
                    proof {
                        assert(msg@ =~= stat_text(info@));
                    }
                    term.write(msg.as_str());
                },
                Err(e) => {
                    let mut msg = String::new();
                    msg.append("stat: ");
                    msg.append(e.message());
                    msg.append("\n");
                    term.write(msg.as_str());
                },
            }
        },
    }
}

/// The arguments after the command word.
fn tail_from(parts: &Vec<String>, from: usize) -> (r: Vec<String>)
    requires
        from <= parts@.len(),
    ensures
        r.deep_view() == parts.deep_view().skip(from as int),
{
    let mut r: Vec<String> = Vec::new();
    let n = parts.len();
    let mut i: usize = from;
    proof {
        assert(r.deep_view() =~= parts.deep_view().subrange(from as int, from as int));
    }
    while i < n
        invariant
            from <= i <= n,
            n == parts@.len(),
            r.deep_view() == parts.deep_view().subrange(from as int, i as int),
        decreases n - i,
    {
        let ghost prev = r@;
        let ghost prev_dv = r.deep_view();
        let item = parts[i].clone();
        let ghost item_view = item@;
        proof {
            assert(item_view == parts.deep_view()[i as int]);
        }
        r.push(item);
        proof {
            assert(r@ == prev.push(item));
            assert forall|k: int| 0 <= k < prev_dv.len() implies r.deep_view()[k] == prev_dv[k] by {
                assert(r@[k] == prev[k]);
            }
            assert(r.deep_view()[prev_dv.len() as int] == item_view);
            assert(r.deep_view() =~= prev_dv.push(item_view));
            assert(prev_dv.push(item_view) =~= parts.deep_view().subrange(
                from as int,
                i as int + 1,
            ));
        }
        i += 1;
    }
    proof {
        assert(parts.deep_view().subrange(from as int, n as int) =~= parts.deep_view().skip(
            from as int,
        ));
    }
    r
}

/// What one command line does: the first word picks the command, the rest are
/// its arguments; a blank line does nothing, an unknown word says so, and only
/// `reboot` asks the runtime to restart the machine.
pub open spec fn run_command_post(
    fs0: Option<RamFs>,
    fs1: Option<RamFs>,
    t0: Terminal,
    t1: Terminal,
    line: Seq<char>,
    act: ShellAction,
) -> bool {
    let ws = words(line);
    if ws.len() == 0 {
        fs1 == fs0 && t1 == t0 && act == ShellAction::Continue
    } else {
        let cmd = ws[0];
        let args = ws.skip(1);
        &&& act == (if cmd == "reboot"@ {
            ShellAction::Reboot
        } else {
            ShellAction::Continue
        })
        &&& if cmd == "help"@ {
            fs1 == fs0 && wrote(t0, t1, help_text())
        } else if cmd == "clear"@ {
            fs1 == fs0 && t1.out@ == t0.out@ + Seq::new(25, |i: int| '\n') && t1.column == 0
                && t1.input_start == t0.input_start
        } else if cmd == "echo"@ {
            fs1 == fs0 && wrote(t0, t1, echo_text(args))
        } else if cmd == "reboot"@ {
            fs1 == fs0 && wrote(t0, t1, "Rebooting...\n"@)
        } else if cmd == "ls"@ {
            fs1 == fs0 && cmd_ls_post(fs0, t0, t1, args)
        } else if cmd == "cat"@ {
            fs1 == fs0 && cmd_cat_post(fs0, t0, t1, args)
        } else if cmd == "mkdir"@ {
            cmd_mkdir_post(fs0, fs1, t0, t1, args)
        } else if cmd == "touch"@ {
            cmd_touch_post(fs0, fs1, t0, t1, args)
        } else if cmd == "rm"@ {
            cmd_rm_post(fs0, fs1, t0, t1, args)
        } else if cmd == "write"@ {
            cmd_write_post(fs0, fs1, t0, t1, args)
        } else if cmd == "stat"@ {
            fs1 == fs0 && cmd_stat_post(fs0, t0, t1, args)
        } else {
            fs1 == fs0 && wrote(t0, t1, "command not found\n"@)
        }
    }
}

/// Runs one command line against the filesystem and the console.
pub fn run_command(fs: &mut Option<RamFs>, term: &mut Terminal, line: &str) -> (act: ShellAction)
    requires
        (*old(fs)) matches Some(f) ==> f.inv(),
    ensures
        (*final(fs)) matches Some(f) ==> f.inv(),
        run_command_post(*old(fs), *final(fs), *old(term), *final(term), line@, act),
{
    let parts = split_words(line);
    if parts.len() == 0 {
        return ShellAction::Continue;
    }
    let args = tail_from(&parts, 1);
    let cmd = &parts[0];
    proof {
        assert(parts.deep_view()[0] == cmd@);
        reveal_strlit("help");
        reveal_strlit("clear");
        reveal_strlit("echo");
        reveal_strlit("reboot");
        reveal_strlit("ls");
        reveal_strlit("cat");
        reveal_strlit("mkdir");
        reveal_strlit("touch");
        reveal_strlit("rm");
        reveal_strlit("write");
        reveal_strlit("stat");
    }
    if str_eq(cmd.as_str(), "help") {
        cmd_help(term);
        ShellAction::Continue
    } else if str_eq(cmd.as_str(), "clear") {
        term.clear();
        ShellAction::Continue
    } else if str_eq(cmd.as_str(), "echo") {
        cmd_echo(term, &args);
        ShellAction::Continue
    } else if str_eq(cmd.as_str(), "reboot") {
        cmd_reboot(term)
    } else if str_eq(cmd.as_str(), "ls") {
        cmd_ls(fs, term, &args);
        ShellAction::Continue
    } else if str_eq(cmd.as_str(), "cat") {
        cmd_cat(fs, term, &args);
        ShellAction::Continue
    } else if str_eq(cmd.as_str(), "mkdir") {
        cmd_mkdir(fs, term, &args);
        ShellAction::Continue
    } else if str_eq(cmd.as_str(), "touch") {
        cmd_touch(fs, term, &args);
        ShellAction::Continue
    } else if str_eq(cmd.as_str(), "rm") {
        cmd_rm(fs, term, &args);
        ShellAction::Continue
    } else if str_eq(cmd.as_str(), "write") {
        cmd_write(fs, term, &args);
        ShellAction::Continue
    } else if str_eq(cmd.as_str(), "stat") {
        cmd_stat(fs, term, &args);
        ShellAction::Continue
    } else {
        term.write("command not found\n");
        ShellAction::Continue
    }
}

} // verus!

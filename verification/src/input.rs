//! The line-buffered input queue: keystrokes accumulate in a string, a
//! backspace drops the last one, and complete lines are taken off the front.
use vstd::prelude::*;
use vstd::string::StrSliceExecFns;
use crate::strutil::{push_char_onto, pop_char_from};

verus! {

/// What one keystroke does to the buffer: a backspace drops the last
/// character, anything else (newline included) is appended.
pub open spec fn push_char_spec(s: Seq<char>, c: char) -> Seq<char> {
    if c == '\x08' {
        if s.len() == 0 {
            s
        } else {
            s.drop_last()
        }
    } else {
        s.push(c)
    }
}

/// Index of the first newline in the buffer, if any.
pub open spec fn first_newline(s: Seq<char>) -> Option<nat>
    decreases s.len(),
{
    if s.len() == 0 {
        None
    } else if s[0] == '\n' {
        Some(0)
    } else {
        match first_newline(s.drop_first()) {
            None => None,
            Some(k) => Some((k + 1) as nat),
        }
    }
}

/// A newline at position `k`, with none before it, is the first one.
pub proof fn lemma_first_newline_at(s: Seq<char>, k: int)
    requires
        0 <= k < s.len(),
        s[k] == '\n',
        forall|j: int| 0 <= j < k ==> s[j] != '\n',
    ensures
        first_newline(s) == Some(k as nat),
    decreases k,
{
    if k == 0 {
    } else {
        let t = s.drop_first();
        assert forall|j: int| 0 <= j < k - 1 implies t[j] != '\n' by {
            assert(t[j] == s[j + 1]);
        }
        assert(t[k - 1] == s[k]);
        lemma_first_newline_at(t, k - 1);
    }
}

/// With no newline anywhere, there is no first one.
pub proof fn lemma_no_newline(s: Seq<char>)
    requires
        forall|j: int| 0 <= j < s.len() ==> s[j] != '\n',
    ensures
        first_newline(s) is None,
    decreases s.len(),
{
    if s.len() > 0 {
        let t = s.drop_first();
        assert forall|j: int| 0 <= j < t.len() implies t[j] != '\n' by {
            assert(t[j] == s[j + 1]);
        }
        lemma_no_newline(t);
    }
}

pub struct InputBuffer {
    pub buf: String,
}

impl InputBuffer {
    pub fn new() -> (r: InputBuffer)
        ensures
            r.buf@ == Seq::<char>::empty(),
    {
        InputBuffer { buf: String::new() }
    }

    /// Feeds one keystroke into the buffer.
    pub fn push_char(&mut self, c: char)
        ensures
            final(self).buf@ == push_char_spec(old(self).buf@, c),
    {
        match c {
            '\n' => {
                push_char_onto(&mut self.buf, '\n');
            },
            '\x08' => {
                let popped = pop_char_from(&mut self.buf);
            },
            _ => {
                push_char_onto(&mut self.buf, c);
            },
        }
    }

    /// Takes the first complete line off the buffer, without its newline,
    /// leaving what follows; nothing happens while no newline is buffered.
    pub fn take_line(&mut self) -> (r: Option<String>)
        ensures
            match first_newline(old(self).buf@) {
                None => r is None && final(self).buf@ == old(self).buf@,
                Some(k) => {
                    &&& r is Some
                    &&& r->0@ == old(self).buf@.take(k as int)
                    &&& final(self).buf@ == old(self).buf@.skip(k as int + 1)
                },
            },
    {
        let n = self.buf.as_str().unicode_len();
        let mut i: usize = 0;
        while i < n
            invariant
                i <= n,
                n == self.buf@.len(),
                self == old(self),
                forall|j: int| 0 <= j < i ==> self.buf@[j] != '\n',
            decreases n - i,
        {
            if self.buf.as_str().get_char(i) == '\n' {
                proof {
                    lemma_first_newline_at(self.buf@, i as int);
                }
                let line = self.buf.as_str().substring_char(0, i).to_owned();
                let rest = self.buf.as_str().substring_char(i + 1, n).to_owned();
                proof {
                    assert(line@ =~= old(self).buf@.take(i as int));
                    assert(rest@ =~= old(self).buf@.skip(i as int + 1));
                }
                self.buf = rest;
                return Some(line);
            }
            i += 1;
        }
        proof {
            lemma_no_newline(self.buf@);
        }
        None
    }
}

} // verus!

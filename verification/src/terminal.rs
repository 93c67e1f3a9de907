//! A model of the text console: the characters written so far, a cursor
//! column, and the column where the current input began. The column advances
//! one step per character and returns to zero on a newline; line wrapping of
//! the physical screen is not modelled.
use vstd::prelude::*;
use vstd::string::StrSliceExecFns;

verus! {

/// The cursor column after writing one character.
pub open spec fn col_after_char(col: nat, c: char) -> nat {
    if c == '\n' {
        0
    } else if col >= usize::MAX as nat {
        col
    } else {
        col + 1
    }
}

/// The cursor column after writing a string.
pub open spec fn col_after(col: nat, s: Seq<char>) -> nat
    decreases s.len(),
{
    if s.len() == 0 {
        col
    } else {
        col_after_char(col_after(col, s.drop_last()), s.last())
    }
}

pub struct Terminal {
    /// Every character written, in order.
    pub out: Vec<char>,
    /// The cursor column in the current line.
    pub column: usize,
    /// The column where the current input run began.
    pub input_start: usize,
}

impl Terminal {
    pub fn new() -> (r: Terminal)
        ensures
            r.out@ == Seq::<char>::empty(),
            r.column == 0,
            r.input_start == 0,
    {
        Terminal { out: Vec::new(), column: 0, input_start: 0 }
    }

    /// Remembers the current column as the start of user input.
    pub fn mark_input_start(&mut self)
        ensures
            final(self).input_start == old(self).column,
            final(self).out == old(self).out,
            final(self).column == old(self).column,
    {
        self.input_start = self.column;
    }

    /// Whether the cursor stands past the start of the current input.
    pub fn can_backspace(&self) -> (r: bool)
        ensures
            r == (self.column > self.input_start),
    {
        self.column > self.input_start
    }

    /// Appends one character and moves the cursor.
    pub fn write_char(&mut self, c: char)
        ensures
            final(self).out@ == old(self).out@.push(c),
            final(self).column == col_after_char(old(self).column as nat, c),
            final(self).input_start == old(self).input_start,
    {
        self.out.push(c);
        if c == '\n' {
            self.column = 0;
        } else if self.column < usize::MAX {
            self.column = self.column + 1;
        }
    }

    /// Appends a string and moves the cursor across it.
    pub fn write(&mut self, s: &str)
        ensures
            final(self).out@ == old(self).out@ + s@,
            final(self).column == col_after(old(self).column as nat, s@),
            final(self).input_start == old(self).input_start,
    {
        let n = s.unicode_len();
        let mut i: usize = 0;
        proof {
            assert(old(self).out@ + s@.take(0) =~= old(self).out@);
        }
        while i < n
            invariant
                i <= n,
                n == s@.len(),
                self.out@ == old(self).out@ + s@.take(i as int),
                self.column as nat == col_after(old(self).column as nat, s@.take(i as int)),
                self.input_start == old(self).input_start,
            decreases n - i,
        {
            proof {
                assert(s@.take(i as int + 1).drop_last() =~= s@.take(i as int));
                assert(s@.take(i as int + 1).last() == s@[i as int]);
            }
            let c = s.get_char(i);
            self.write_char(c);
            proof {
                assert(self.out@ =~= old(self).out@ + s@.take(i as int + 1));
            }
            i += 1;
        }
        proof {
            assert(s@.take(n as int) =~= s@);
        }
    }

    /// Clears the screen by pushing a screenful of blank lines.
    pub fn clear(&mut self)
        ensures
            final(self).out@ == old(self).out@ + Seq::new(25, |i: int| '\n'),
            final(self).column == 0,
            final(self).input_start == old(self).input_start,
    {
        let mut i: usize = 0;
        proof {
            assert(old(self).out@ + Seq::new(0, |k: int| '\n') =~= old(self).out@);
        }
        while i < 25
            invariant
                i <= 25,
                self.out@ == old(self).out@ + Seq::new(i as nat, |k: int| '\n'),
                self.input_start == old(self).input_start,
                i > 0 ==> self.column == 0,
                i == 0 ==> self.column == old(self).column,
            decreases 25 - i,
        {
            self.write_char('\n');
            proof {
                assert(self.out@ =~= old(self).out@ + Seq::new(i as nat + 1, |k: int| '\n'));
            }
            i += 1;
        }
    }

    /// Steps the cursor back one column and drops the last written character,
    /// only while the cursor stands past the start of the current input.
    pub fn backspace(&mut self)
        ensures
            old(self).column <= old(self).input_start ==> *final(self) == *old(self),
            old(self).column > old(self).input_start ==> {
                &&& final(self).column == old(self).column - 1
                &&& final(self).input_start == old(self).input_start
                &&& final(self).out@ == if old(self).out@.len() > 0 {
                    old(self).out@.drop_last()
                } else {
                    old(self).out@
                }
            },
    {
        if !self.can_backspace() {
            return ;
        }
        self.column = self.column - 1;
        let popped = self.out.pop();
        proof {
            if old(self).out@.len() > 0 {
                assert(self.out@ =~= old(self).out@.drop_last());
            }
        }
    }
}

} // verus!

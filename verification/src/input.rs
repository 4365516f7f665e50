//! Cursor coordinates and the backtracking character stream.
//!
//! A [`CharStream`] owns the decoded input characters together with a movable
//! cursor.  The line and column kept alongside the cursor are always the ones
//! determined by the characters consumed so far, which is what allows a saved
//! [`Position`] to be restored exactly when a rule backtracks.

use vstd::prelude::*;
use vstd::string::StrSliceExecFns;

verus! {

/// Line, column and absolute character index of a cursor, in that order.
/// Lines and columns are 1-based, the index is 0-based.
#[derive(Clone, Copy, Debug, PartialEq, Eq, Structural)]
pub struct Position(pub usize, pub usize, pub usize);

impl Position {
    pub fn new(line: usize, col: usize, idx: usize) -> (r: Position)
        ensures
            r == Position(line, col, idx),
    {
        Position(line, col, idx)
    }
}

/// The half-open span between two cursor positions.
#[derive(Clone, Copy, Debug, PartialEq, Eq, Structural)]
pub struct Range(pub Position, pub Position);

impl Range {
    pub fn new(start: Position, end: Position) -> (r: Range)
        ensures
            r == Range(start, end),
    {
        Range(start, end)
    }
}

/// The 1-based line on which the character at index `i` of `s` falls:
/// one more than the number of newlines strictly before `i`.
pub open spec fn line_at(s: Seq<char>, i: int) -> int
    decreases i,
{
    if i <= 0 {
        1
    } else if s[i - 1] == '\n' {
        line_at(s, i - 1) + 1
    } else {
        line_at(s, i - 1)
    }
}

/// The 1-based column of the character at index `i` of `s`:
/// one more than the number of characters since the last newline.
pub open spec fn col_at(s: Seq<char>, i: int) -> int
    decreases i,
{
    if i <= 0 {
        1
    } else if s[i - 1] == '\n' {
        1
    } else {
        col_at(s, i - 1) + 1
    }
}

pub proof fn lemma_line_col_bounds(s: Seq<char>, i: int)
    requires
        0 <= i,
    ensures
        1 <= line_at(s, i) <= i + 1,
        1 <= col_at(s, i) <= i + 1,
    decreases i,
{
    if i > 0 {
        lemma_line_col_bounds(s, i - 1);
    }
}

/// The full coordinates of character index `i` within `s`.
pub open spec fn pos_at(s: Seq<char>, i: int) -> Position {
    Position(line_at(s, i) as usize, col_at(s, i) as usize, i as usize)
}

/// `p` is a position of `s`: its index is in range and its line and column
/// are the ones the characters before the index determine.
pub open spec fn is_pos(s: Seq<char>, p: Position) -> bool {
    &&& p.2 <= s.len()
    &&& p == pos_at(s, p.2 as int)
}

/// A decoded, random-accessible character buffer with a movable cursor.
#[derive(Debug)]
pub struct CharStream {
    chars: Vec<char>,
    index: usize,
    line: usize,
    col: usize,
}

impl CharStream {
    /// The full decoded input.
    pub closed spec fn text(&self) -> Seq<char> {
        self.chars@
    }

    /// The cursor: the index of the next unconsumed character.
    pub closed spec fn cursor(&self) -> int {
        self.index as int
    }

    /// The cursor is within the input and the cached line and column agree
    /// with the characters consumed so far.
    pub closed spec fn wf(&self) -> bool {
        &&& self.chars@.len() < usize::MAX
        &&& self.index <= self.chars@.len()
        &&& self.line == line_at(self.chars@, self.index as int)
        &&& self.col == col_at(self.chars@, self.index as int)
    }

    pub proof fn lemma_wf(&self)
        requires
            self.wf(),
        ensures
            0 <= self.cursor() <= self.text().len() < usize::MAX,
    {
    }

    pub fn from(s: &str) -> (r: CharStream)
        requires
            s@.len() < usize::MAX,
        ensures
            r.wf(),
            r.text() == s@,
            r.cursor() == 0,
    {
        let n = s.unicode_len();
        let mut chars: Vec<char> = Vec::new();
        let mut i: usize = 0;
        while i < n
            invariant
                n == s@.len() < usize::MAX,
                i <= n,
                chars@ == s@.subrange(0, i as int),
            decreases n - i,
        {
            let c = s.get_char(i);
            chars.push(c);
            assert(chars@ =~= s@.subrange(0, i + 1));
            i += 1;
        }
        assert(chars@ =~= s@);
        CharStream { chars, index: 0, line: 1, col: 1 }
    }

    /// The coordinates of the cursor.
    pub fn get_pos(&self) -> (r: Position)
        requires
            self.wf(),
        ensures
            r == pos_at(self.text(), self.cursor()),
            is_pos(self.text(), r),
    {
        proof {
            lemma_line_col_bounds(self.text(), self.cursor());
        }
        Position::new(self.line, self.col, self.index)
    }

    /// The line and column of the cursor, for diagnostics.
    pub fn get_loc(&self) -> (r: (usize, usize))
        requires
            self.wf(),
        ensures
            r.0 == line_at(self.text(), self.cursor()),
            r.1 == col_at(self.text(), self.cursor()),
    {
        (self.line, self.col)
    }

    /// The characters consumed since `pos`, together with the span they cover.
    pub fn since_pos(&mut self, pos: Position) -> (r: (&[char], Range))
        requires
            old(self).wf(),
            pos.2 <= old(self).cursor(),
        ensures
            *final(self) == *old(self),
            r.0@ == old(self).text().subrange(pos.2 as int, old(self).cursor()),
            r.1 == Range(pos, pos_at(old(self).text(), old(self).cursor())),
    {
        proof {
            lemma_line_col_bounds(self.text(), self.cursor());
        }
        let range = Range::new(pos, Position::new(self.line, self.col, self.index));
        (vstd::slice::slice_subrange(self.chars.as_slice(), pos.2, self.index), range)
    }

    /// Moves the cursor back (or forward) to a previously observed position.
    pub fn set_pos(&mut self, pos: Position)
        requires
            old(self).wf(),
            is_pos(old(self).text(), pos),
        ensures
            final(self).wf(),
            final(self).text() == old(self).text(),
            final(self).cursor() == pos.2,
    {
        proof {
            lemma_line_col_bounds(old(self).text(), pos.2 as int);
        }
        self.line = pos.0;
        self.col = pos.1;
        self.index = pos.2;
    }

    /// Consumes one character, keeping line and column in step with it.
    /// At the end of the input nothing is consumed and `None` comes back.
    pub fn next(&mut self) -> (r: Option<char>)
        requires
            old(self).wf(),
        ensures
            final(self).wf(),
            final(self).text() == old(self).text(),
            old(self).cursor() < old(self).text().len() ==> {
                &&& r == Some(old(self).text()[old(self).cursor()])
                &&& final(self).cursor() == old(self).cursor() + 1
            },
            old(self).cursor() >= old(self).text().len() ==> {
                &&& r is None
                &&& final(self).cursor() == old(self).cursor()
            },
    {
        proof {
            lemma_line_col_bounds(self.text(), self.cursor());
        }
        if self.index < self.chars.len() {
            let c = self.chars[self.index];
            self.index += 1;
            self.col += 1;
            if c == '\n' {
                self.line += 1;
                self.col = 1;
            }
            Some(c)
        } else {
            None
        }
    }

    /// The next unconsumed character, without consuming it.
    pub fn peek(&self) -> (r: Option<&char>)
        requires
            self.wf(),
        ensures
            self.cursor() < self.text().len() ==> r == Some(&self.text()[self.cursor()]),
            self.cursor() >= self.text().len() ==> r is None,
    {
        self.chars.get(self.index)
    }

    /// Describes an unconsumed character the caller has no rule for:
    /// consumes it and hands it back with the line and column that follow it.
    /// At the end of the input there is nothing to describe.
    pub fn report_unknown(&mut self) -> (r: Option<(char, usize, usize)>)
        requires
            old(self).wf(),
        ensures
            final(self).wf(),
            final(self).text() == old(self).text(),
            old(self).cursor() < old(self).text().len() ==> {
                &&& r == Some(
                    (
                        old(self).text()[old(self).cursor()],
                        line_at(old(self).text(), old(self).cursor() + 1) as usize,
                        col_at(old(self).text(), old(self).cursor() + 1) as usize,
                    ),
                )
                &&& final(self).cursor() == old(self).cursor() + 1
            },
            old(self).cursor() >= old(self).text().len() ==> {
                &&& r is None
                &&& final(self).cursor() == old(self).cursor()
            },
    {
        match self.next() {
            Some(c) => Some((c, self.line, self.col)),
            None => None,
        }
    }
}

} // verus!

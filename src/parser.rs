//! The VM source reader: walks a unit's lines and reads each instruction
//! line into a command.
use vstd::prelude::*;
use crate::command::{command_of, opt_view, Command};
use crate::text::{chars_of, split_lines, lines_of, tokenize, tokens, views};

verus! {

/// A line that holds an instruction: not blank, and not starting with the
/// comment marker.
pub open spec fn is_instruction_line(line: Seq<char>) -> bool {
    let t = tokens(line);
    t.len() > 0 && !(t[0].len() >= 2 && t[0][0] == '/' && t[0][1] == '/')
}

/// Reads a VM source unit line by line.
pub struct Parser {
    lines: Vec<Vec<char>>,
    cur: usize,
}

impl Parser {
    /// The lines of the source.
    pub closed spec fn lines(&self) -> Seq<Seq<char>> {
        views(self.lines@)
    }

    /// The index of the first line not yet consumed.
    pub closed spec fn cursor(&self) -> int {
        self.cur as int
    }

    pub closed spec fn wf(&self) -> bool {
        self.cur <= self.lines@.len()
    }

    /// A well-formed parser's cursor lies within its lines.
    pub proof fn lemma_cursor_in_range(&self)
        requires
            self.wf(),
        ensures
            0 <= self.cursor() <= self.lines().len(),
    {
    }

    /// Whether an instruction line stands at or after line `from`.
    pub open spec fn more_from(&self, from: int) -> bool {
        exists|j: int| from <= j < self.lines().len() && is_instruction_line(#[trigger] self.lines()[j])
    }

    /// A parser at the start of `source`.
    pub fn new(source: &str) -> (r: Parser)
        ensures
            r.wf(),
            r.lines() == lines_of(source@),
            r.cursor() == 0,
    {
        Parser { lines: split_lines(&chars_of(source)), cur: 0 }
    }

    fn instruction_line_at(&self, j: usize) -> (r: bool)
        requires
            j < self.lines@.len(),
        ensures
            r == is_instruction_line(self.lines()[j as int]),
    {
        let t = tokenize(&self.lines[j]);
        t.len() > 0 && !(t[0].len() >= 2 && t[0][0] == '/' && t[0][1] == '/')
    }

    /// Whether an instruction line is left.
    pub fn has_more_lines(&self) -> (r: bool)
        requires
            self.wf(),
        ensures
            r == self.more_from(self.cursor()),
    {
        let mut j = self.cur;
        while j < self.lines.len()
            invariant
                self.cur <= j <= self.lines@.len(),
                forall|k: int| self.cur <= k < j ==> !is_instruction_line(#[trigger] self.lines()[k]),
            decreases self.lines.len() - j,
        {
            if self.instruction_line_at(j) {
                return true;
            }
            j = j + 1;
        }
        false
    }

    /// Consumes the next instruction line and reads it; `None` where it
    /// matches no grammar, or where no instruction line is left.
    pub fn advance(&mut self) -> (r: Option<Command>)
        requires
            old(self).wf(),
        ensures
            final(self).wf(),
            final(self).lines() == old(self).lines(),
            !old(self).more_from(old(self).cursor()) ==> r is None && final(self).cursor()
                == old(self).lines().len(),
            old(self).more_from(old(self).cursor()) ==> {
                let j = final(self).cursor() - 1;
                &&& old(self).cursor() <= j < old(self).lines().len()
                &&& is_instruction_line(old(self).lines()[j])
                &&& forall|k: int|
                    old(self).cursor() <= k < j ==> !is_instruction_line(
                        #[trigger] old(self).lines()[k],
                    )
                &&& opt_view(r) == command_of(tokens(old(self).lines()[j]))
            },
    {
        while self.cur < self.lines.len()
            invariant
                self.wf(),
                self.lines() == old(self).lines(),
                old(self).cursor() <= self.cursor(),
                forall|k: int|
                    old(self).cursor() <= k < self.cursor() ==> !is_instruction_line(
                        #[trigger] self.lines()[k],
                    ),
            decreases self.lines.len() - self.cur,
        {
            let j = self.cur;
            if self.instruction_line_at(j) {
                self.cur = j + 1;
                let t = tokenize(&self.lines[j]);
                return Command::from_tokens(&t);
            }
            self.cur = j + 1;
        }
        None
    }
}

} // verus!

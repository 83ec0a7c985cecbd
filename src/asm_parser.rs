//! The reader of Hack assembly: walks the instruction lines of a source and
//! splits the current one into its fields.
use vstd::prelude::*;
use crate::text::{chars_of, lines_of, split_lines, string_of, views};

verus! {

/// The three kinds of line in Hack assembly.
#[derive(Debug, Clone, Copy, PartialEq, Eq, Structural)]
pub enum InstructionType {
    /// `@xxx`
    InstA,
    /// `dest=comp;jump`
    InstC,
    /// `(xxx)`
    InstL,
}

/// `s` without its leading spaces.
pub open spec fn strip_head(s: Seq<char>) -> Seq<char>
    decreases s.len(),
{
    if s.len() > 0 && s[0] == ' ' {
        strip_head(s.drop_first())
    } else {
        s
    }
}

pub open spec fn is_comment(s: Seq<char>) -> bool {
    s.len() >= 2 && s[0] == '/' && s[1] == '/'
}

/// A line, leading spaces removed, that holds an instruction.
pub open spec fn is_asm_instruction(s: Seq<char>) -> bool {
    s.len() > 0 && !is_comment(s)
}

/// The instruction lines of `lines`, in order, leading spaces removed.
pub open spec fn asm_instructions(lines: Seq<Seq<char>>) -> Seq<Seq<char>>
    decreases lines.len(),
{
    if lines.len() == 0 {
        Seq::empty()
    } else {
        let rest = asm_instructions(lines.drop_last());
        let l = strip_head(lines.last());
        if is_asm_instruction(l) {
            rest.push(l)
        } else {
            rest
        }
    }
}

pub open spec fn type_of(line: Seq<char>) -> InstructionType {
    if line.len() > 0 && line[0] == '@' {
        InstructionType::InstA
    } else if line.len() > 0 && line[0] == '(' && line.last() == ')' {
        InstructionType::InstL
    } else {
        InstructionType::InstC
    }
}

/// The symbol of an A-instruction or a label declaration.
pub open spec fn symbol_of(line: Seq<char>) -> Seq<char> {
    if type_of(line) == InstructionType::InstA {
        line.subrange(1, line.len() as int)
    } else {
        line.subrange(1, line.len() - 1)
    }
}

/// The first index at or after `i` where `c` stands in `s`.
pub open spec fn find_from(s: Seq<char>, c: char, i: int) -> Option<int>
    decreases s.len() - i,
{
    if i < 0 || i >= s.len() {
        None
    } else if s[i] == c {
        Some(i)
    } else {
        find_from(s, c, i + 1)
    }
}

pub open spec fn dest_of(line: Seq<char>) -> Seq<char> {
    match find_from(line, '=', 0) {
        Some(p) => line.subrange(0, p),
        None => Seq::empty(),
    }
}

/// The computation field: between the first `=` and the first `;`; empty
/// where the `;` comes first.
pub open spec fn comp_of(line: Seq<char>) -> Seq<char> {
    let start = match find_from(line, '=', 0) {
        Some(p) => p + 1,
        None => 0,
    };
    let end = match find_from(line, ';', 0) {
        Some(p) => p,
        None => line.len() as int,
    };
    if start <= end {
        line.subrange(start, end)
    } else {
        Seq::empty()
    }
}

pub open spec fn jump_of(line: Seq<char>) -> Seq<char> {
    match find_from(line, ';', 0) {
        Some(p) => line.subrange(p + 1, line.len() as int),
        None => Seq::empty(),
    }
}

/// The line that is current before the first `advance`: the first line of
/// the source, leading spaces removed.
pub open spec fn first_line(lines: Seq<Seq<char>>) -> Seq<char> {
    if lines.len() > 0 {
        strip_head(lines[0])
    } else {
        Seq::empty()
    }
}

fn remove_head_space(s: &Vec<char>) -> (r: Vec<char>)
    ensures
        r@ == strip_head(s@),
{
    let mut i: usize = 0;
    assert(s@.subrange(0, s@.len() as int) =~= s@);
    while i < s.len() && s[i] == ' '
        invariant
            i <= s.len(),
            strip_head(s@) == strip_head(s@.subrange(i as int, s@.len() as int)),
        decreases s.len() - i,
    {
        assert(s@.subrange(i as int, s@.len() as int).drop_first() =~= s@.subrange(
            i + 1,
            s@.len() as int,
        ));
        i = i + 1;
    }
    slice_of(s, i, s.len())
}

fn slice_of(s: &Vec<char>, from: usize, to: usize) -> (r: Vec<char>)
    requires
        from <= to <= s.len(),
    ensures
        r@ == s@.subrange(from as int, to as int),
{
    let mut r: Vec<char> = Vec::new();
    let mut k: usize = from;
    while k < to
        invariant
            from <= k <= to <= s.len(),
            r@ == s@.subrange(from as int, k as int),
        decreases to - k,
    {
        r.push(s[k]);
        assert(s@.subrange(from as int, k + 1) =~= s@.subrange(from as int, k as int).push(
            s@[k as int],
        ));
        k = k + 1;
    }
    r
}

fn is_comment_exec(s: &Vec<char>) -> (r: bool)
    ensures
        r == is_comment(s@),
{
    s.len() >= 2 && s[0] == '/' && s[1] == '/'
}

fn find(s: &Vec<char>, c: char) -> (r: Option<usize>)
    ensures
        match r {
            Some(p) => find_from(s@, c, 0) == Some(p as int) && p < s@.len(),
            None => find_from(s@, c, 0) is None,
        },
{
    let mut i: usize = 0;
    while i < s.len()
        invariant
            i <= s.len(),
            find_from(s@, c, 0) == find_from(s@, c, i as int),
        decreases s.len() - i,
    {
        if s[i] == c {
            return Some(i);
        }
        i = i + 1;
    }
    None
}

/// Reads a Hack assembly source one instruction at a time.
pub struct Parser {
    first: Vec<char>,
    instrs: Vec<Vec<char>>,
    cur: usize,
    started: bool,
}

impl Parser {
    /// The instruction lines of the source.
    pub closed spec fn instructions(&self) -> Seq<Seq<char>> {
        views(self.instrs@)
    }

    /// The index of the instruction that the next `advance` moves to.
    pub closed spec fn next_index(&self) -> int {
        if self.started {
            self.cur + 1
        } else {
            0
        }
    }

    /// The line the fields are read from.
    pub closed spec fn current(&self) -> Seq<char> {
        if self.started {
            self.instructions()[self.cur as int]
        } else {
            self.first@
        }
    }

    pub closed spec fn wf(&self) -> bool {
        self.started ==> self.cur < self.instrs@.len()
    }

    /// A parser at the start of `source`.
    pub fn new(source: &str) -> (r: Parser)
        ensures
            r.wf(),
            r.instructions() == asm_instructions(lines_of(source@)),
            r.next_index() == 0,
            r.current() == first_line(lines_of(source@)),
    {
        let lines = split_lines(&chars_of(source));
        let ghost lv = views(lines@);
        let mut instrs: Vec<Vec<char>> = Vec::new();
        let mut i: usize = 0;
        while i < lines.len()
            invariant
                i <= lines.len(),
                lv == views(lines@),
                views(instrs@) == asm_instructions(lv.subrange(0, i as int)),
            decreases lines.len() - i,
        {
            let l = remove_head_space(&lines[i]);
            assert(lv.subrange(0, i + 1).drop_last() =~= lv.subrange(0, i as int));
            if l.len() > 0 && !is_comment_exec(&l) {
                let ghost pre = instrs@;
                let ghost lvw = l@;
                instrs.push(l);
                assert(views(instrs@) =~= views(pre).push(lvw));
            }
            i = i + 1;
        }
        assert(lv.subrange(0, i as int) =~= lv);
        let first = if lines.len() > 0 {
            remove_head_space(&lines[0])
        } else {
            Vec::new()
        };
        Parser { first, instrs, cur: 0, started: false }
    }

    /// The number of instruction lines.
    pub fn count(&self) -> (r: usize)
        ensures
            r == self.instructions().len(),
    {
        self.instrs.len()
    }

    /// Goes back to the state `new` gave.
    pub fn reset(&mut self)
        requires
            old(self).wf(),
        ensures
            final(self).wf(),
            final(self).instructions() == old(self).instructions(),
            final(self).next_index() == 0,
    {
        self.cur = 0;
        self.started = false;
    }

    /// Whether an instruction is left for `advance`.
    pub fn has_more_lines(&self) -> (r: bool)
        requires
            self.wf(),
        ensures
            r == (self.next_index() < self.instructions().len()),
    {
        if self.started {
            let n = self.instrs.len();
            self.cur < n - 1
        } else {
            self.instrs.len() > 0
        }
    }

    /// Moves to the next instruction.
    pub fn advance(&mut self)
        requires
            old(self).wf(),
            old(self).next_index() < old(self).instructions().len(),
        ensures
            final(self).wf(),
            final(self).instructions() == old(self).instructions(),
            final(self).next_index() == old(self).next_index() + 1,
            final(self).current() == old(self).instructions()[old(self).next_index()],
    {
        if self.started {
            let n = self.instrs.len();
            assert(self.cur < n);
            self.cur = self.cur + 1;
        } else {
            self.started = true;
            self.cur = 0;
        }
    }

    fn line(&self) -> (r: &Vec<char>)
        requires
            self.wf(),
        ensures
            r@ == self.current(),
    {
        if self.started {
            &self.instrs[self.cur]
        } else {
            &self.first
        }
    }

    /// The kind of the current line.
    pub fn instruction_type(&self) -> (r: InstructionType)
        requires
            self.wf(),
        ensures
            r == type_of(self.current()),
    {
        let l = self.line();
        if l.len() > 0 && l[0] == '@' {
            InstructionType::InstA
        } else if l.len() > 0 && l[0] == '(' && l[l.len() - 1] == ')' {
            InstructionType::InstL
        } else {
            InstructionType::InstC
        }
    }

    pub(crate) fn symbol_chars(&self) -> (r: Vec<char>)
        requires
            self.wf(),
            type_of(self.current()) != InstructionType::InstC,
        ensures
            r@ == symbol_of(self.current()),
    {
        let l = self.line();
        if self.instruction_type() == InstructionType::InstA {
            slice_of(l, 1, l.len())
        } else {
            slice_of(l, 1, l.len() - 1)
        }
    }

    /// The symbol of the current A-instruction or label declaration.
    pub fn symbol(&self) -> (r: String)
        requires
            self.wf(),
            type_of(self.current()) != InstructionType::InstC,
        ensures
            r@ == symbol_of(self.current()),
    {
        string_of(&self.symbol_chars())
    }

    pub(crate) fn dest_chars(&self) -> (r: Vec<char>)
        requires
            self.wf(),
        ensures
            r@ == dest_of(self.current()),
    {
        let l = self.line();
        match find(l, '=') {
            Some(p) => slice_of(l, 0, p),
            None => Vec::new(),
        }
    }

    pub(crate) fn comp_chars(&self) -> (r: Vec<char>)
        requires
            self.wf(),
        ensures
            r@ == comp_of(self.current()),
    {
        let l = self.line();
        let n = l.len();
        let start = match find(l, '=') {
            Some(p) => p + 1,
            None => 0,
        };
        let end = match find(l, ';') {
            Some(p) => p,
            None => l.len(),
        };
        if start <= end {
            slice_of(l, start, end)
        } else {
            Vec::new()
        }
    }

    pub(crate) fn jump_chars(&self) -> (r: Vec<char>)
        requires
            self.wf(),
        ensures
            r@ == jump_of(self.current()),
    {
        let l = self.line();
        let n = l.len();
        match find(l, ';') {
            Some(p) => slice_of(l, p + 1, n),
            None => Vec::new(),
        }
    }

    /// The destination field of the current C-instruction: what stands
    /// before `=`, or nothing.
    pub fn dest(&self) -> (r: String)
        requires
            self.wf(),
            type_of(self.current()) == InstructionType::InstC,
        ensures
            r@ == dest_of(self.current()),
    {
        string_of(&self.dest_chars())
    }

    /// The computation field of the current C-instruction.
    pub fn comp(&self) -> (r: String)
        requires
            self.wf(),
            type_of(self.current()) == InstructionType::InstC,
        ensures
            r@ == comp_of(self.current()),
    {
        string_of(&self.comp_chars())
    }

    /// The jump field of the current C-instruction: what stands after `;`,
    /// or nothing.
    pub fn jump(&self) -> (r: String)
        requires
            self.wf(),
            type_of(self.current()) == InstructionType::InstC,
        ensures
            r@ == jump_of(self.current()),
    {
        string_of(&self.jump_chars())
    }
}

} // verus!

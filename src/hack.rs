//! Hack assembly instructions, as the code generator emits them, and their
//! text.
use vstd::prelude::*;
use crate::text::{dec, push_dec};

verus! {

/// Where a C-instruction stores its result.
#[derive(Debug, Clone, Copy, PartialEq, Eq, Structural)]
pub enum Dest {
    Null,
    M,
    D,
    A,
    AM,
}

/// The computations of the ALU that the generated code uses.
#[derive(Debug, Clone, Copy, PartialEq, Eq, Structural)]
pub enum Comp {
    Zero,
    NegOne,
    D,
    A,
    M,
    NotM,
    NegM,
    MPlusOne,
    MMinusOne,
    DPlusA,
    DMinusA,
    DPlusM,
    MMinusD,
    DAndM,
    DOrM,
}

/// The jump condition of a C-instruction, tested on its result.
#[derive(Debug, Clone, Copy, PartialEq, Eq, Structural)]
pub enum Jump {
    Null,
    JEQ,
    JGT,
    JLT,
    JNE,
    JMP,
}

/// The operand of an A-instruction.
#[derive(Debug, Clone, PartialEq, Eq)]
pub enum Addr {
    Num(u16),
    Sp,
    Lcl,
    Arg,
    This,
    That,
    /// One of the sixteen registers `R0` to `R15`.
    R(u16),
    /// A symbol that the assembler resolves: a label or a variable.
    Name(Vec<char>),
}

/// One line of Hack assembly.
#[derive(Debug, Clone, PartialEq, Eq)]
pub enum Asm {
    At(Addr),
    Label(Vec<char>),
    C(Dest, Comp, Jump),
}

pub enum AddrV {
    Num(u16),
    Sp,
    Lcl,
    Arg,
    This,
    That,
    R(u16),
    Name(Seq<char>),
}

/// An instruction with its symbols seen as character sequences.
pub enum Ins {
    At(AddrV),
    Label(Seq<char>),
    C(Dest, Comp, Jump),
}

impl View for Addr {
    type V = AddrV;

    open spec fn view(&self) -> AddrV {
        match self {
            Addr::Num(n) => AddrV::Num(*n),
            Addr::Sp => AddrV::Sp,
            Addr::Lcl => AddrV::Lcl,
            Addr::Arg => AddrV::Arg,
            Addr::This => AddrV::This,
            Addr::That => AddrV::That,
            Addr::R(n) => AddrV::R(*n),
            Addr::Name(s) => AddrV::Name(s@),
        }
    }
}

impl View for Asm {
    type V = Ins;

    open spec fn view(&self) -> Ins {
        match self {
            Asm::At(a) => Ins::At(a@),
            Asm::Label(s) => Ins::Label(s@),
            Asm::C(d, c, j) => Ins::C(*d, *c, *j),
        }
    }
}

pub open spec fn asm_views(v: Seq<Asm>) -> Seq<Ins> {
    v.map_values(|a: Asm| a@)
}

pub open spec fn dest_text(d: Dest) -> Seq<char> {
    match d {
        Dest::Null => Seq::empty(),
        Dest::M => "M="@,
        Dest::D => "D="@,
        Dest::A => "A="@,
        Dest::AM => "AM="@,
    }
}

pub open spec fn comp_text(c: Comp) -> Seq<char> {
    match c {
        Comp::Zero => "0"@,
        Comp::NegOne => "-1"@,
        Comp::D => "D"@,
        Comp::A => "A"@,
        Comp::M => "M"@,
        Comp::NotM => "!M"@,
        Comp::NegM => "-M"@,
        Comp::MPlusOne => "M+1"@,
        Comp::MMinusOne => "M-1"@,
        Comp::DPlusA => "D+A"@,
        Comp::DMinusA => "D-A"@,
        Comp::DPlusM => "D+M"@,
        Comp::MMinusD => "M-D"@,
        Comp::DAndM => "D&M"@,
        Comp::DOrM => "D|M"@,
    }
}

pub open spec fn jump_text(j: Jump) -> Seq<char> {
    match j {
        Jump::Null => Seq::empty(),
        Jump::JEQ => ";JEQ"@,
        Jump::JGT => ";JGT"@,
        Jump::JLT => ";JLT"@,
        Jump::JNE => ";JNE"@,
        Jump::JMP => ";JMP"@,
    }
}

pub open spec fn addr_text(a: AddrV) -> Seq<char> {
    match a {
        AddrV::Num(n) => dec(n as nat),
        AddrV::Sp => "SP"@,
        AddrV::Lcl => "LCL"@,
        AddrV::Arg => "ARG"@,
        AddrV::This => "THIS"@,
        AddrV::That => "THAT"@,
        AddrV::R(n) => seq!['R'] + dec(n as nat),
        AddrV::Name(s) => s,
    }
}

/// The text of one instruction, without its line feed.
pub open spec fn ins_text(i: Ins) -> Seq<char> {
    match i {
        Ins::At(a) => seq!['@'] + addr_text(a),
        Ins::Label(s) => seq!['('] + s + seq![')'],
        Ins::C(d, c, j) => dest_text(d) + comp_text(c) + jump_text(j),
    }
}

/// The text of a sequence of instructions, each on a line of its own.
pub open spec fn code_text(code: Seq<Ins>) -> Seq<char>
    decreases code.len(),
{
    if code.len() == 0 {
        Seq::empty()
    } else {
        code_text(code.drop_last()) + ins_text(code.last()) + seq!['\n']
    }
}

/// Appends the characters of `lit` to `out`.
pub fn push_lit(out: &mut Vec<char>, lit: &str)
    ensures
        final(out)@ == old(out)@ + lit@,
{
    let n = lit.unicode_len();
    let mut i: usize = 0;
    while i < n
        invariant
            n == lit@.len(),
            i <= n,
            out@ == old(out)@ + lit@.subrange(0, i as int),
        decreases n - i,
    {
        out.push(lit.get_char(i));
        assert(lit@.subrange(0, i + 1) =~= lit@.subrange(0, i as int).push(lit@[i as int]));
        i = i + 1;
    }
    assert(lit@.subrange(0, n as int) =~= lit@);
}

pub(crate) fn push_chars(out: &mut Vec<char>, s: &Vec<char>)
    ensures
        final(out)@ == old(out)@ + s@,
{
    let mut i: usize = 0;
    while i < s.len()
        invariant
            i <= s.len(),
            out@ == old(out)@ + s@.subrange(0, i as int),
        decreases s.len() - i,
    {
        out.push(s[i]);
        assert(s@.subrange(0, i + 1) =~= s@.subrange(0, i as int).push(s@[i as int]));
        i = i + 1;
    }
    assert(s@.subrange(0, i as int) =~= s@);
}

impl Dest {
    fn render(&self, out: &mut Vec<char>)
        ensures
            final(out)@ == old(out)@ + dest_text(*self),
    {
        match self {
            Dest::Null => {
                assert(out@ =~= old(out)@ + Seq::<char>::empty());
            },
            Dest::M => push_lit(out, "M="),
            Dest::D => push_lit(out, "D="),
            Dest::A => push_lit(out, "A="),
            Dest::AM => push_lit(out, "AM="),
        }
    }
}

impl Comp {
    fn render(&self, out: &mut Vec<char>)
        ensures
            final(out)@ == old(out)@ + comp_text(*self),
    {
        match self {
            Comp::Zero => push_lit(out, "0"),
            Comp::NegOne => push_lit(out, "-1"),
            Comp::D => push_lit(out, "D"),
            Comp::A => push_lit(out, "A"),
            Comp::M => push_lit(out, "M"),
            Comp::NotM => push_lit(out, "!M"),
            Comp::NegM => push_lit(out, "-M"),
            Comp::MPlusOne => push_lit(out, "M+1"),
            Comp::MMinusOne => push_lit(out, "M-1"),
            Comp::DPlusA => push_lit(out, "D+A"),
            Comp::DMinusA => push_lit(out, "D-A"),
            Comp::DPlusM => push_lit(out, "D+M"),
            Comp::MMinusD => push_lit(out, "M-D"),
            Comp::DAndM => push_lit(out, "D&M"),
            Comp::DOrM => push_lit(out, "D|M"),
        }
    }
}

impl Jump {
    fn render(&self, out: &mut Vec<char>)
        ensures
            final(out)@ == old(out)@ + jump_text(*self),
    {
        match self {
            Jump::Null => {
                assert(out@ =~= old(out)@ + Seq::<char>::empty());
            },
            Jump::JEQ => push_lit(out, ";JEQ"),
            Jump::JGT => push_lit(out, ";JGT"),
            Jump::JLT => push_lit(out, ";JLT"),
            Jump::JNE => push_lit(out, ";JNE"),
            Jump::JMP => push_lit(out, ";JMP"),
        }
    }
}

impl Addr {
    fn render(&self, out: &mut Vec<char>)
        ensures
            final(out)@ == old(out)@ + addr_text(self@),
    {
        match self {
            Addr::Num(n) => push_dec(out, *n as u64),
            Addr::Sp => push_lit(out, "SP"),
            Addr::Lcl => push_lit(out, "LCL"),
            Addr::Arg => push_lit(out, "ARG"),
            Addr::This => push_lit(out, "THIS"),
            Addr::That => push_lit(out, "THAT"),
            Addr::R(n) => {
                out.push('R');
                push_dec(out, *n as u64);
                assert(out@ =~= old(out)@ + addr_text(self@));
            },
            Addr::Name(s) => push_chars(out, s),
        }
    }
}

impl Asm {
    /// Appends the text of this instruction to `out`, without a line feed.
    pub fn render(&self, out: &mut Vec<char>)
        ensures
            final(out)@ == old(out)@ + ins_text(self@),
    {
        match self {
            Asm::At(a) => {
                out.push('@');
                a.render(out);
                assert(out@ =~= old(out)@ + ins_text(self@));
            },
            Asm::Label(s) => {
                out.push('(');
                push_chars(out, s);
                out.push(')');
                assert(out@ =~= old(out)@ + ins_text(self@));
            },
            Asm::C(d, c, j) => {
                d.render(out);
                c.render(out);
                j.render(out);
                assert(out@ =~= old(out)@ + ins_text(self@));
            },
        }
    }
}

/// Appends the text of `code`, one instruction per line, to `out`.
pub fn render_code(code: &Vec<Asm>, out: &mut Vec<char>)
    ensures
        final(out)@ == old(out)@ + code_text(asm_views(code@)),
{
    let mut i: usize = 0;
    while i < code.len()
        invariant
            i <= code.len(),
            out@ == old(out)@ + code_text(asm_views(code@.subrange(0, i as int))),
        decreases code.len() - i,
    {
        code[i].render(out);
        out.push('\n');
        let ghost pre = asm_views(code@.subrange(0, i as int));
        let ghost next = asm_views(code@.subrange(0, i + 1));
        assert(next.drop_last() =~= pre);
        assert(out@ =~= old(out)@ + code_text(next));
        i = i + 1;
    }
    assert(code@.subrange(0, i as int) =~= code@);
}

} // verus!

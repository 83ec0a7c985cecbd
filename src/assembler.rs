//! The two-pass assembler: resolves labels and variables through a symbol
//! table and encodes each instruction as a 16-bit binary word.
use vstd::prelude::*;
use crate::asm_parser::{
    comp_of, dest_of, jump_of, symbol_of, type_of, InstructionType, Parser,
};
use crate::code::{comp_bits, comp_of as comp_code, dest_bits, dest_of as dest_code, jump_bits, jump_of as jump_code, CodeGenError};
use crate::text::{chars_of, parse_u16, string_of, u16_of};

verus! {

/// The address bound to `key`: the first entry of `t` with that key.
pub open spec fn lookup(t: Seq<(Seq<char>, u16)>, key: Seq<char>) -> Option<u16>
    decreases t.len(),
{
    if t.len() == 0 {
        None
    } else if t[0].0 == key {
        Some(t[0].1)
    } else {
        lookup(t.drop_first(), key)
    }
}

/// The symbols every program starts with: the registers, the pointer cells
/// and the two memory-mapped devices.
pub open spec fn predefined() -> Seq<(Seq<char>, u16)> {
    seq![
        ("R0"@, 0u16),
        ("R1"@, 1u16),
        ("R2"@, 2u16),
        ("R3"@, 3u16),
        ("R4"@, 4u16),
        ("R5"@, 5u16),
        ("R6"@, 6u16),
        ("R7"@, 7u16),
        ("R8"@, 8u16),
        ("R9"@, 9u16),
        ("R10"@, 10u16),
        ("R11"@, 11u16),
        ("R12"@, 12u16),
        ("R13"@, 13u16),
        ("R14"@, 14u16),
        ("R15"@, 15u16),
        ("SP"@, 0u16),
        ("LCL"@, 1u16),
        ("ARG"@, 2u16),
        ("THIS"@, 3u16),
        ("THAT"@, 4u16),
        ("SCREEN"@, 16384u16),
        ("KBD"@, 24576u16)
    ]
}

/// The last `n` bits of `v` as characters, most significant first.
pub open spec fn bits(v: nat, n: nat) -> Seq<char>
    decreases n,
{
    if n == 0 {
        Seq::empty()
    } else {
        bits(v / 2, (n - 1) as nat).push(if v % 2 == 1 { '1' } else { '0' })
    }
}

/// The sixteen-character binary text of a word.
pub open spec fn word(v: u16) -> Seq<char> {
    bits(v as nat, 16)
}

/// The first pass: the symbol table with every label bound to the address
/// of the instruction after it, and the number of instructions.
pub open spec fn label_pass(instrs: Seq<Seq<char>>) -> Result<(Seq<(Seq<char>, u16)>, nat), CodeGenError>
    decreases instrs.len(),
{
    if instrs.len() == 0 {
        Ok((predefined(), 0))
    } else {
        match label_pass(instrs.drop_last()) {
            Err(e) => Err(e),
            Ok((t, row)) => {
                let l = instrs.last();
                if type_of(l) == InstructionType::InstL {
                    let s = symbol_of(l);
                    if lookup(t, s) is Some {
                        Ok((t, row))
                    } else if row <= 0xFFFF {
                        Ok((t.push((s, row as u16)), row))
                    } else {
                        Err(CodeGenError::AddressOutOfRange)
                    }
                } else {
                    Ok((t, row + 1))
                }
            },
        }
    }
}

/// The state of the second pass: the symbol table, the number of variables
/// placed, the text so far, and whether a line feed comes before the next
/// word.
pub open spec fn emit_pass(instrs: Seq<Seq<char>>, t0: Seq<(Seq<char>, u16)>) -> Result<
    (Seq<(Seq<char>, u16)>, nat, Seq<char>, bool),
    CodeGenError,
>
    decreases instrs.len(),
{
    if instrs.len() == 0 {
        Ok((t0, 0, Seq::empty(), false))
    } else {
        match emit_pass(instrs.drop_last(), t0) {
            Err(e) => Err(e),
            Ok((t, n, out, nl)) => {
                let l = instrs.last();
                let sep = if nl { seq!['\n'] } else { Seq::empty() };
                if type_of(l) == InstructionType::InstA {
                    let s = symbol_of(l);
                    if u16_of(s) is Some {
                        Ok((t, n, out + sep + word(u16_of(s)->0), true))
                    } else if lookup(t, s) is Some {
                        Ok((t, n, out + sep + word(lookup(t, s)->0), true))
                    } else if 16 + n <= 0xFFFF {
                        Ok((t.push((s, (16 + n) as u16)), n + 1, out + sep + word((16 + n) as u16), true))
                    } else {
                        Err(CodeGenError::AddressOutOfRange)
                    }
                } else if type_of(l) == InstructionType::InstC {
                    let c = comp_bits(comp_of(l));
                    let d = dest_bits(dest_of(l));
                    let j = jump_bits(jump_of(l));
                    if c is Some && d is Some && j is Some {
                        Ok((t, n, out + sep + "111"@ + c->0 + d->0 + j->0, true))
                    } else {
                        Err(CodeGenError::InvalidInstruction)
                    }
                } else {
                    Ok((t, n, out, true))
                }
            },
        }
    }
}

/// The machine code of a program: one word per A- or C-instruction, lines
/// separated by line feeds.
pub open spec fn assemble(instrs: Seq<Seq<char>>) -> Result<Seq<char>, CodeGenError> {
    match label_pass(instrs) {
        Err(e) => Err(e),
        Ok((t, _)) => match emit_pass(instrs, t) {
            Ok((_, _, out, _)) => Ok(out),
            Err(e) => Err(e),
        },
    }
}

fn push_bits(out: &mut Vec<char>, v: u64, n: u64)
    ensures
        final(out)@ == old(out)@ + bits(v as nat, n as nat),
    decreases n,
{
    if n > 0 {
        push_bits(out, v / 2, n - 1);
        out.push(if v % 2 == 1 { '1' } else { '0' });
        assert(out@ =~= old(out)@ + bits(v as nat, n as nat));
    } else {
        assert(out@ =~= old(out)@ + bits(v as nat, n as nat));
    }
}

/// Symbols and the addresses bound to them.
struct SymbolTable {
    entries: Vec<(Vec<char>, u16)>,
}

impl SymbolTable {
    spec fn view(&self) -> Seq<(Seq<char>, u16)> {
        self.entries@.map_values(|e: (Vec<char>, u16)| (e.0@, e.1))
    }

    fn new() -> (r: SymbolTable)
        ensures
            r.view() == predefined(),
    {
        let mut entries: Vec<(Vec<char>, u16)> = Vec::new();
        entries.push((chars_of("R0"), 0));
        entries.push((chars_of("R1"), 1));
        entries.push((chars_of("R2"), 2));
        entries.push((chars_of("R3"), 3));
        entries.push((chars_of("R4"), 4));
        entries.push((chars_of("R5"), 5));
        entries.push((chars_of("R6"), 6));
        entries.push((chars_of("R7"), 7));
        entries.push((chars_of("R8"), 8));
        entries.push((chars_of("R9"), 9));
        entries.push((chars_of("R10"), 10));
        entries.push((chars_of("R11"), 11));
        entries.push((chars_of("R12"), 12));
        entries.push((chars_of("R13"), 13));
        entries.push((chars_of("R14"), 14));
        entries.push((chars_of("R15"), 15));
        entries.push((chars_of("SP"), 0));
        entries.push((chars_of("LCL"), 1));
        entries.push((chars_of("ARG"), 2));
        entries.push((chars_of("THIS"), 3));
        entries.push((chars_of("THAT"), 4));
        entries.push((chars_of("SCREEN"), 16384));
        entries.push((chars_of("KBD"), 24576));
        let r = SymbolTable { entries };
        assert(r.view() =~= predefined());
        r
    }

    /// Binds `key` to `addr`, after the bindings already there.
    fn add_entry(&mut self, key: &Vec<char>, addr: u16)
        ensures
            final(self).view() == old(self).view().push((key@, addr)),
    {
        let mut k: Vec<char> = Vec::new();
        crate::hack::push_chars(&mut k, key);
        let ghost pre = self.view();
        self.entries.push((k, addr));
        assert(self.view() =~= pre.push((key@, addr)));
    }

    fn get_address(&self, key: &Vec<char>) -> (r: Option<u16>)
        ensures
            r == lookup(self.view(), key@),
    {
        let mut i: usize = 0;
        assert(self.view().subrange(0, self.view().len() as int) =~= self.view());
        while i < self.entries.len()
            invariant
                i <= self.entries@.len(),
                lookup(self.view(), key@) == lookup(self.view().subrange(i as int, self.view().len() as int), key@),
            decreases self.entries.len() - i,
        {
            let ghost rest = self.view().subrange(i as int, self.view().len() as int);
            assert(rest.drop_first() =~= self.view().subrange(i + 1, self.view().len() as int));
            if crate::text::is_lit_chars(&self.entries[i].0, key) {
                return Some(self.entries[i].1);
            }
            i = i + 1;
        }
        None
    }

    fn contains(&self, key: &Vec<char>) -> (r: bool)
        ensures
            r == lookup(self.view(), key@) is Some,
    {
        self.get_address(key).is_some()
    }
}

/// Assembles a Hack assembly source into machine code.
pub struct Assembler {
    parser: Parser,
    table: SymbolTable,
}

impl Assembler {
    /// The instruction lines of the source.
    pub closed spec fn instructions(&self) -> Seq<Seq<char>> {
        self.parser.instructions()
    }

    pub closed spec fn wf(&self) -> bool {
        self.parser.wf()
    }

    pub fn new(source: &str) -> (r: Assembler)
        ensures
            r.wf(),
            r.instructions() == crate::asm_parser::asm_instructions(crate::text::lines_of(source@)),
    {
        Assembler { parser: Parser::new(source), table: SymbolTable::new() }
    }

    /// The machine code of the whole source, or the first error.
    pub fn write(&mut self) -> (r: Result<String, CodeGenError>)
        requires
            old(self).wf(),
        ensures
            final(self).wf(),
            final(self).instructions() == old(self).instructions(),
            match r {
                Ok(s) => assemble(old(self).instructions()) == Ok::<Seq<char>, CodeGenError>(s@),
                Err(e) => assemble(old(self).instructions()) == Err::<Seq<char>, CodeGenError>(e),
            },
    {
        self.parser.reset();
        self.table = SymbolTable::new();
        match self.first_path() {
            Err(e) => Err(e),
            Ok(()) => match self.second_path() {
                Err(e) => Err(e),
                Ok(out) => Ok(string_of(&out)),
            },
        }
    }

    /// Binds every label to the address of the instruction after it.
    fn first_path(&mut self) -> (r: Result<(), CodeGenError>)
        requires
            old(self).wf(),
            old(self).parser.next_index() == 0,
            old(self).table.view() == predefined(),
        ensures
            final(self).wf(),
            final(self).instructions() == old(self).instructions(),
            r is Ok ==> final(self).parser.next_index() == 0,
            match r {
                Ok(()) => label_pass(old(self).instructions()) is Ok && final(self).table.view()
                    == label_pass(old(self).instructions())->Ok_0.0,
                Err(e) => label_pass(old(self).instructions()) == Err::<
                    (Seq<(Seq<char>, u16)>, nat),
                    CodeGenError,
                >(e),
            },
    {
        let ghost instrs = self.parser.instructions();
        let total = self.parser.count();
        let mut row: usize = 0;
        assert(instrs.subrange(0, 0) =~= Seq::<Seq<char>>::empty());
        while self.parser.has_more_lines()
            invariant
                self.parser.wf(),
                self.parser.instructions() == instrs,
                instrs == old(self).parser.instructions(),
                instrs.len() == total,
                0 <= self.parser.next_index() <= instrs.len(),
                row <= self.parser.next_index(),
                label_pass(instrs.subrange(0, self.parser.next_index())) == Ok::<
                    (Seq<(Seq<char>, u16)>, nat),
                    CodeGenError,
                >((self.table.view(), row as nat)),
            decreases instrs.len() - self.parser.next_index(),
        {
            let ghost i = self.parser.next_index();
            self.parser.advance();
            assert(instrs.subrange(0, i + 1).drop_last() =~= instrs.subrange(0, i));
            match self.parser.instruction_type() {
                InstructionType::InstL => {
                    let sym = self.parser.symbol_chars();
                    if !self.table.contains(&sym) {
                        if row > 0xFFFF {
                            proof {
                                lemma_label_error_sticks(instrs, (i + 1) as int);
                            }
                            return Err(CodeGenError::AddressOutOfRange);
                        }
                        self.table.add_entry(&sym, row as u16);
                    }
                },
                _ => {
                    row = row + 1;
                },
            }
        }
        assert(instrs.subrange(0, instrs.len() as int) =~= instrs);
        self.parser.reset();
        Ok(())
    }

    /// Encodes every A- and C-instruction, placing new variables from
    /// address 16 on.
    fn second_path(&mut self) -> (r: Result<Vec<char>, CodeGenError>)
        requires
            old(self).wf(),
            old(self).parser.next_index() == 0,
        ensures
            final(self).wf(),
            final(self).instructions() == old(self).instructions(),
            match r {
                Ok(out) => emit_pass(old(self).instructions(), old(self).table.view()) is Ok && out@
                    == emit_pass(old(self).instructions(), old(self).table.view())->Ok_0.2,
                Err(e) => emit_pass(old(self).instructions(), old(self).table.view()) == Err::<
                    (Seq<(Seq<char>, u16)>, nat, Seq<char>, bool),
                    CodeGenError,
                >(e),
            },
    {
        let ghost instrs = self.parser.instructions();
        let ghost t0 = self.table.view();
        let total = self.parser.count();
        let mut out: Vec<char> = Vec::new();
        let mut need_ln = false;
        let mut a_count: usize = 0;
        assert(instrs.subrange(0, 0) =~= Seq::<Seq<char>>::empty());
        while self.parser.has_more_lines()
            invariant
                self.parser.wf(),
                self.parser.instructions() == instrs,
                instrs == old(self).parser.instructions(),
                t0 == old(self).table.view(),
                instrs.len() == total,
                0 <= self.parser.next_index() <= instrs.len(),
                a_count <= self.parser.next_index(),
                emit_pass(instrs.subrange(0, self.parser.next_index()), t0) == Ok::<
                    (Seq<(Seq<char>, u16)>, nat, Seq<char>, bool),
                    CodeGenError,
                >((self.table.view(), a_count as nat, out@, need_ln)),
            decreases instrs.len() - self.parser.next_index(),
        {
            let ghost i = self.parser.next_index();
            let ghost out0 = out@;
            self.parser.advance();
            assert(instrs.subrange(0, i + 1).drop_last() =~= instrs.subrange(0, i));
            match self.parser.instruction_type() {
                InstructionType::InstA => {
                    if need_ln {
                        out.push('\n');
                    }
                    let sym = self.parser.symbol_chars();
                    let addr = match parse_u16(&sym) {
                        Some(n) => n,
                        None => match self.table.get_address(&sym) {
                            Some(a) => a,
                            None => {
                                if a_count > 0xFFFF - 16 {
                                    proof {
                                        lemma_emit_error_sticks(instrs, t0, (i + 1) as int);
                                    }
                                    return Err(CodeGenError::AddressOutOfRange);
                                }
                                let a = (16 + a_count) as u16;
                                self.table.add_entry(&sym, a);
                                a_count = a_count + 1;
                                a
                            },
                        },
                    };
                    push_bits(&mut out, addr as u64, 16);
                    assert(out@ =~= out0 + (if need_ln { seq!['\n'] } else { Seq::empty() }) + word(addr));
                },
                InstructionType::InstC => {
                    let c = comp_code(&self.parser.comp_chars());
                    let d = dest_code(&self.parser.dest_chars());
                    let j = jump_code(&self.parser.jump_chars());
                    match (c, d, j) {
                        (Ok(c), Ok(d), Ok(j)) => {
                            if need_ln {
                                out.push('\n');
                            }
                            crate::hack::push_lit(&mut out, "111");
                            crate::hack::push_lit(&mut out, c);
                            crate::hack::push_lit(&mut out, d);
                            crate::hack::push_lit(&mut out, j);
                            assert(out@ =~= out0 + (if need_ln { seq!['\n'] } else { Seq::empty() }) + "111"@ + c@ + d@ + j@);
                        },
                        _ => {
                            proof {
                                lemma_emit_error_sticks(instrs, t0, (i + 1) as int);
                            }
                            return Err(CodeGenError::InvalidInstruction);
                        },
                    }
                },
                InstructionType::InstL => {},
            }
            need_ln = true;
        }
        assert(instrs.subrange(0, instrs.len() as int) =~= instrs);
        Ok(out)
    }
}

proof fn lemma_label_error_sticks(instrs: Seq<Seq<char>>, i: int)
    requires
        0 <= i <= instrs.len(),
        label_pass(instrs.subrange(0, i)) is Err,
    ensures
        label_pass(instrs) == label_pass(instrs.subrange(0, i)),
    decreases instrs.len() - i,
{
    if i < instrs.len() {
        assert(instrs.subrange(0, i + 1).drop_last() =~= instrs.subrange(0, i));
        lemma_label_error_sticks(instrs, i + 1);
    } else {
        assert(instrs.subrange(0, i) =~= instrs);
    }
}

proof fn lemma_emit_error_sticks(instrs: Seq<Seq<char>>, t0: Seq<(Seq<char>, u16)>, i: int)
    requires
        0 <= i <= instrs.len(),
        emit_pass(instrs.subrange(0, i), t0) is Err,
    ensures
        emit_pass(instrs, t0) == emit_pass(instrs.subrange(0, i), t0),
    decreases instrs.len() - i,
{
    if i < instrs.len() {
        assert(instrs.subrange(0, i + 1).drop_last() =~= instrs.subrange(0, i));
        lemma_emit_error_sticks(instrs, t0, i + 1);
    } else {
        assert(instrs.subrange(0, i) =~= instrs);
    }
}

} // verus!

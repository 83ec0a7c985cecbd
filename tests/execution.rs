use hack_vm::assembler::Assembler;
use hack_vm::command::{ArithmeticCommand, PushPop, PushPopCommand, Segment};
use hack_vm::parser::Parser;
use hack_vm::translator::VmTranslator;
use hack_vm::writer::{CodeWriter, GenError};

/// A Hack computer: ROM of words, 64K words of RAM.
struct Cpu {
    rom: Vec<u16>,
    ram: Vec<u16>,
    a: u16,
    d: u16,
    pc: usize,
}

impl Cpu {
    fn new(hack: &str) -> Cpu {
        let rom = hack
            .lines()
            .filter(|l| !l.is_empty())
            .map(|l| u16::from_str_radix(l, 2).unwrap())
            .collect();
        Cpu { rom, ram: vec![0; 65536], a: 0, d: 0, pc: 0 }
    }

    fn alu(x: u16, y: u16, c: u16) -> u16 {
        let mut x = x;
        let mut y = y;
        if c & 0b100000 != 0 {
            x = 0;
        }
        if c & 0b010000 != 0 {
            x = !x;
        }
        if c & 0b001000 != 0 {
            y = 0;
        }
        if c & 0b000100 != 0 {
            y = !y;
        }
        let mut out = if c & 0b000010 != 0 { x.wrapping_add(y) } else { x & y };
        if c & 0b000001 != 0 {
            out = !out;
        }
        out
    }

    /// Whether the program sits in a `@here; 0;JMP` loop.
    fn halted(&self) -> bool {
        self.pc + 1 < self.rom.len()
            && self.rom[self.pc] as usize == self.pc
            && self.rom[self.pc + 1] == 0b1110101010000111
    }

    fn step(&mut self) {
        let w = self.rom[self.pc];
        if w & 0x8000 == 0 {
            self.a = w;
            self.pc += 1;
            return;
        }
        let m = self.ram[self.a as usize];
        let y = if w & 0x1000 != 0 { m } else { self.a };
        let out = Cpu::alu(self.d, y, (w >> 6) & 0x3F);
        let old_a = self.a;
        if w & 0b001000 != 0 {
            self.ram[old_a as usize] = out;
        }
        if w & 0b100000 != 0 {
            self.a = out;
        }
        if w & 0b010000 != 0 {
            self.d = out;
        }
        let neg = out & 0x8000 != 0;
        let zero = out == 0;
        let pos = !neg && !zero;
        let j = w & 0b111;
        let take = (j & 0b100 != 0 && neg) || (j & 0b010 != 0 && zero) || (j & 0b001 != 0 && pos);
        self.pc = if take { old_a as usize } else { self.pc + 1 };
    }

    fn run(&mut self, limit: usize) {
        let mut n = 0;
        while !self.halted() {
            assert!(n < limit, "program did not halt");
            self.step();
            n += 1;
        }
    }
}

fn translate(source: &str) -> String {
    let mut t = VmTranslator::new(Parser::new(source), CodeWriter::new("Main".to_string()));
    t.translate().unwrap();
    t.output()
}

fn assemble(program: &str) -> String {
    Assembler::new(program).write().unwrap()
}

/// Translates, assembles and runs `source` with the given cells preset.
fn run_vm(source: &str, preset: &[(usize, u16)]) -> Cpu {
    let mut cpu = Cpu::new(&assemble(&translate(source)));
    for (addr, v) in preset {
        cpu.ram[*addr] = *v;
    }
    cpu.run(1_000_000);
    cpu
}

fn fib(n: u16) -> u16 {
    if n < 2 { n } else { fib(n - 1) + fib(n - 2) }
}

#[test]
fn add_then_pop_to_local() {
    let cpu = run_vm("push constant 7\npush constant 8\nadd\npop local 0\n", &[(1, 300)]);
    assert_eq!(cpu.ram[300], 15);
    assert_eq!(cpu.ram[0], 256);
}

#[test]
fn recursive_fibonacci() {
    let body = "call Main.fib 1
pop temp 0
label HALT
goto HALT
function Main.fib 0
push argument 0
push constant 2
lt
if-goto BASE
push argument 0
push constant 1
sub
call Main.fib 1
push argument 0
push constant 2
sub
call Main.fib 1
add
goto DONE
label BASE
push argument 0
label DONE
return
";
    for n in 0..=6u16 {
        let source = format!("push constant {}\n{}", n, body);
        let cpu = run_vm(&source, &[]);
        assert_eq!(cpu.ram[5], fib(n));
        assert_eq!(cpu.ram[0], 256);
    }
}

#[test]
fn labels_of_two_functions_stay_apart() {
    let source = "call Main.f 0
pop temp 0
call Main.g 0
pop temp 1
label HALT
goto HALT
function Main.f 0
goto L
push constant 99
pop temp 2
label L
push constant 1
return
function Main.g 0
goto L
push constant 98
pop temp 3
label L
push constant 2
return
";
    let program = translate(source);
    assert!(program.contains("(Main.f.L)\n"));
    assert!(program.contains("(Main.g.L)\n"));
    let cpu = run_vm(source, &[]);
    assert_eq!(cpu.ram[5], 1);
    assert_eq!(cpu.ram[6], 2);
    assert_eq!(cpu.ram[7], 0);
    assert_eq!(cpu.ram[8], 0);
}

#[test]
fn call_and_return_restore_the_frame() {
    let source = "push constant 10
push constant 20
push constant 30
call Main.f 3
label HALT
goto HALT
function Main.f 2
push constant 42
return
";
    let preset = [(1, 1000), (2, 1100), (3, 1200), (4, 1300)];
    let cpu = run_vm(source, &preset);
    assert_eq!(cpu.ram[0], 257);
    assert_eq!(cpu.ram[256], 42);
    assert_eq!(cpu.ram[1], 1000);
    assert_eq!(cpu.ram[2], 1100);
    assert_eq!(cpu.ram[3], 1200);
    assert_eq!(cpu.ram[4], 1300);
}

#[test]
fn call_with_no_arguments_returns_over_the_return_address() {
    let source = "call Main.f 0
label HALT
goto HALT
function Main.f 0
push constant 7
return
";
    let cpu = run_vm(source, &[]);
    assert_eq!(cpu.ram[0], 257);
    assert_eq!(cpu.ram[256], 7);
}

#[test]
fn push_then_pop_leaves_memory_alone() {
    let preset = [(1, 300), (300 + 2, 1234), (3, 400), (400 + 1, 77)];
    let cpu = run_vm(
        "push local 2\npop local 2\npush this 1\npop this 1\npush temp 3\npop temp 3\n",
        &preset,
    );
    assert_eq!(cpu.ram[0], 256);
    assert_eq!(cpu.ram[302], 1234);
    assert_eq!(cpu.ram[401], 77);
    assert_eq!(cpu.ram[8], 0);
}

fn binary(a: u16, b: u16, op: &str) -> u16 {
    let cpu = run_vm(&format!("push constant {}\npush constant {}\n{}\n", a, b, op), &[]);
    assert_eq!(cpu.ram[0], 257);
    cpu.ram[256]
}

#[test]
fn binary_operators() {
    assert_eq!(binary(7, 8, "add"), 15);
    assert_eq!(binary(7, 8, "sub"), 0xFFFF);
    assert_eq!(binary(12, 10, "and"), 8);
    assert_eq!(binary(12, 10, "or"), 14);
    assert_eq!(binary(5, 5, "eq"), 0xFFFF);
    assert_eq!(binary(5, 6, "eq"), 0);
    assert_eq!(binary(9, 2, "gt"), 0xFFFF);
    assert_eq!(binary(2, 9, "gt"), 0);
    assert_eq!(binary(2, 2, "gt"), 0);
    assert_eq!(binary(2, 9, "lt"), 0xFFFF);
    assert_eq!(binary(9, 2, "lt"), 0);
}

#[test]
fn unary_operators() {
    let cpu = run_vm("push constant 5\nneg\n", &[]);
    assert_eq!(cpu.ram[256], 0xFFFB);
    assert_eq!(cpu.ram[0], 257);
    let cpu = run_vm("push constant 5\nnot\n", &[]);
    assert_eq!(cpu.ram[256], 0xFFFA);
}

#[test]
fn if_goto_jumps_on_true_and_pops() {
    let source = "push constant 1
if-goto YES
push constant 11
pop temp 0
label YES
push constant 0
if-goto NO
push constant 22
pop temp 1
label NO
label HALT
goto HALT
";
    let cpu = run_vm(source, &[]);
    assert_eq!(cpu.ram[5], 0);
    assert_eq!(cpu.ram[6], 22);
    assert_eq!(cpu.ram[0], 256);
}

#[test]
fn statics_are_named_by_the_unit() {
    let program = translate("push constant 3\npop static 4\npush static 4\n");
    assert!(program.contains("@Main.4\n"));
    assert!(program.starts_with("@256\nD=A\n@SP\nM=D\n"));
    assert!(program.ends_with("(Main.END)\n@Main.END\n0;JMP\n"));
}

#[test]
fn comparisons_get_fresh_labels() {
    let program = translate("push constant 1\npush constant 2\neq\npush constant 3\neq\n");
    assert!(program.contains("(EQ_TRUE_0)\n"));
    assert!(program.contains("(EQ_END_0)\n"));
    assert!(program.contains("(EQ_TRUE_1)\n"));
    assert!(program.contains("(EQ_END_1)\n"));
}

#[test]
fn fatal_generation_errors() {
    let mut w = CodeWriter::new("Main".to_string());
    let pop = |segment: Segment, index: u16| PushPopCommand { kind: PushPop::Pop, segment, index };
    assert_eq!(w.write_push_pop(&pop(Segment::Constant, 0)), Err(GenError::ConstantNotAddressable));
    assert_eq!(w.write_push_pop(&pop(Segment::Temp, 8)), Err(GenError::IndexOutOfRange));
    assert_eq!(w.write_push_pop(&pop(Segment::Static, 241)), Err(GenError::IndexOutOfRange));
    assert_eq!(w.write_push_pop(&pop(Segment::Pointer, 2)), Err(GenError::IndexOutOfRange));
    assert_eq!(w.write_push_pop(&pop(Segment::Temp, 7)), Ok(()));
    assert_eq!(w.write_push_pop(&pop(Segment::Static, 240)), Ok(()));
    assert_eq!(w.write_return(), Err(GenError::ReturnOutsideFunction));
    assert_eq!(w.write_function("Main.f", 0), Ok(()));
    assert_eq!(w.write_return(), Ok(()));
    assert_eq!(w.write_return(), Err(GenError::ReturnOutsideFunction));
    assert_eq!(w.write_arithmetic(&ArithmeticCommand::Add), Ok(()));
    assert_eq!(w.write_function("Main.g", 1), Ok(()));
    assert_eq!(w.write_function("Main.h", 0), Err(GenError::UnclosedFunction));
    assert_eq!(w.open_functions(), 1);
}

#[test]
fn a_function_left_open_is_fatal() {
    let mut t = VmTranslator::new(
        Parser::new("function Main.f 0\npush constant 1\n"),
        CodeWriter::new("Main".to_string()),
    );
    assert_eq!(t.translate(), Err(GenError::UnclosedFunction));
    assert!(!t.output().contains("Main.END"));
}

#[test]
fn labels_outside_functions_use_the_unit() {
    let program = translate("label TOP\ngoto TOP\n");
    assert!(program.contains("(Main.TOP)\n@Main.TOP\n0;JMP\n"));
}

#[test]
fn translation_stops_at_the_first_fatal_error() {
    let mut t = VmTranslator::new(
        Parser::new("push constant 1\npop constant 0\npush constant 2\n"),
        CodeWriter::new("Main".to_string()),
    );
    assert_eq!(t.translate(), Err(GenError::ConstantNotAddressable));
    let out = t.output();
    assert!(out.starts_with("@256\nD=A\n@SP\nM=D\n@1\n"));
    assert!(!out.contains("Main.END"));
    assert!(!out.contains("@2\n"));
}

#[test]
fn unrecognized_lines_are_skipped() {
    let cpu = run_vm("push constant 4\nfrobnicate 3\npush constant 5\nadd\n", &[]);
    assert_eq!(cpu.ram[256], 9);
}

//! A model of the Hack machine that the generated code runs on, and the laws
//! that the generated code obeys on it.
use vstd::prelude::*;
use crate::command::{ArithmeticCommand, Segment};
use crate::hack::{AddrV, Comp, Dest, Ins, Jump};
use crate::writer::{
    call_code, function_code, push_cell_code, repeat, restore_code, return_code,
    addressable, compare_code, end_label, is_relational, relational_jump, set_stack_top_code, true_label, arithmetic_code, operator_code, advance_stack_code, at, backward_stack_code, op, push_code, push_d_code, pop_code, segment_addr_code,
};

verus! {

/// Registers, program counter and memory. Memory cells 0 to 4 hold the
/// stack pointer and the four segment bases; 13 and 14 are scratch cells.
pub struct Machine {
    pub a: u16,
    pub d: u16,
    pub pc: int,
    pub ram: Map<u16, u16>,
}

/// The value of `x` modulo 2^16.
pub open spec fn wrap(x: int) -> u16 {
    (x % 65536) as u16
}

/// The signed reading of a 16-bit word.
pub open spec fn signed(v: u16) -> int {
    if v < 32768 {
        v as int
    } else {
        v as int - 65536
    }
}

/// Boolean true and false as words: all ones, all zeros.
pub open spec fn truth(b: bool) -> u16 {
    if b {
        0xFFFF
    } else {
        0
    }
}

/// The address an A-instruction loads; `env` resolves labels and variables.
pub open spec fn resolve(env: spec_fn(Seq<char>) -> u16, a: AddrV) -> u16 {
    match a {
        AddrV::Num(n) => n,
        AddrV::Sp => 0,
        AddrV::Lcl => 1,
        AddrV::Arg => 2,
        AddrV::This => 3,
        AddrV::That => 4,
        AddrV::R(n) => n,
        AddrV::Name(s) => env(s),
    }
}

pub open spec fn alu(c: Comp, a: u16, d: u16, m: u16) -> u16 {
    match c {
        Comp::Zero => 0,
        Comp::NegOne => 0xFFFF,
        Comp::D => d,
        Comp::A => a,
        Comp::M => m,
        Comp::NotM => !m,
        Comp::NegM => wrap(-m),
        Comp::MPlusOne => wrap(m + 1),
        Comp::MMinusOne => wrap(m - 1),
        Comp::DPlusA => wrap(d + a),
        Comp::DMinusA => wrap(d - a),
        Comp::DPlusM => wrap(d + m),
        Comp::MMinusD => wrap(m - d),
        Comp::DAndM => d & m,
        Comp::DOrM => d | m,
    }
}

pub open spec fn jumps(j: Jump, v: u16) -> bool {
    match j {
        Jump::Null => false,
        Jump::JEQ => v == 0,
        Jump::JGT => signed(v) > 0,
        Jump::JLT => signed(v) < 0,
        Jump::JNE => v != 0,
        Jump::JMP => true,
    }
}

/// The state after instruction `i`, the program counter moved to the next
/// instruction; a jump is not taken.
pub open spec fn exec_ins(i: Ins, env: spec_fn(Seq<char>) -> u16, m: Machine) -> Machine {
    match i {
        Ins::At(x) => Machine { a: resolve(env, x), pc: m.pc + 1, ..m },
        Ins::Label(_) => Machine { pc: m.pc + 1, ..m },
        Ins::C(dest, c, _) => {
            let v = alu(c, m.a, m.d, m.ram[m.a]);
            match dest {
                Dest::Null => Machine { pc: m.pc + 1, ..m },
                Dest::M => Machine { ram: m.ram.insert(m.a, v), pc: m.pc + 1, ..m },
                Dest::D => Machine { d: v, pc: m.pc + 1, ..m },
                Dest::A => Machine { a: v, pc: m.pc + 1, ..m },
                Dest::AM => Machine { a: v, ram: m.ram.insert(m.a, v), pc: m.pc + 1, ..m },
            }
        },
    }
}

/// Runs straight-line code from its first instruction to its end.
pub open spec fn run_code(code: Seq<Ins>, env: spec_fn(Seq<char>) -> u16, m: Machine) -> Machine
    decreases code.len(),
{
    if code.len() == 0 {
        m
    } else {
        run_code(code.drop_first(), env, exec_ins(code[0], env, m))
    }
}

pub proof fn lemma_run_code_append(
    x: Seq<Ins>,
    y: Seq<Ins>,
    env: spec_fn(Seq<char>) -> u16,
    m: Machine,
)
    ensures
        run_code(x + y, env, m) == run_code(y, env, run_code(x, env, m)),
    decreases x.len(),
{
    if x.len() == 0 {
        assert(x + y =~= y);
    } else {
        assert((x + y).drop_first() =~= x.drop_first() + y);
        assert((x + y)[0] == x[0]);
        lemma_run_code_append(x.drop_first(), y, env, exec_ins(x[0], env, m));
    }
}

/// The value of the stack pointer cell.
pub open spec fn sp(m: Machine) -> u16 {
    m.ram[0]
}

/// The address of `segment index` in state `m`: the base held in the
/// segment's pointer cell plus the index for `local`, `argument`, `this` and
/// `that`; `THIS` or `THAT` for `pointer` 0 or 1; `R5` plus the index for
/// `temp`; the variable `<ident>.<index>` for `static`.
pub open spec fn segment_address(
    env: spec_fn(Seq<char>) -> u16,
    ident: Seq<char>,
    s: Segment,
    i: u16,
    m: Machine,
) -> u16 {
    match s {
        Segment::Local => wrap(m.ram[1] + i),
        Segment::Argument => wrap(m.ram[2] + i),
        Segment::This => wrap(m.ram[3] + i),
        Segment::That => wrap(m.ram[4] + i),
        Segment::Static => env(crate::writer::static_name(ident, i)),
        Segment::Temp => (5 + i) as u16,
        Segment::Pointer => if i == 0 {
            3
        } else {
            4
        },
        Segment::Constant => 0,
    }
}

/// The address code of a segment loads its address into `A` and changes no
/// memory cell.
pub proof fn law_segment_address(
    env: spec_fn(Seq<char>) -> u16,
    ident: Seq<char>,
    s: Segment,
    i: u16,
    m: Machine,
)
    requires
        addressable(s, i),
    ensures
        run_code(segment_addr_code(ident, s, i), env, m).a == segment_address(env, ident, s, i, m),
        run_code(segment_addr_code(ident, s, i), env, m).ram == m.ram,
{
    reveal_with_fuel(run_code, 5);
}

/// `push`: the value of the segment cell (the index itself for `constant`)
/// stored on top of the stack, the stack pointer one higher, no other cell
/// changed.
pub proof fn law_push(env: spec_fn(Seq<char>) -> u16, ident: Seq<char>, s: Segment, i: u16, m: Machine)
    requires
        addressable(s, i) || s == Segment::Constant,
        16 <= sp(m),
    ensures
        ({
            let v = if s == Segment::Constant {
                i
            } else {
                m.ram[segment_address(env, ident, s, i, m)]
            };
            let m2 = run_code(push_code(ident, s, i), env, m);
            &&& m2.ram == m.ram.insert(sp(m), v).insert(0, wrap(sp(m) + 1))
        }),
{
    reveal_with_fuel(run_code, 12);
    if s != Segment::Constant {
        lemma_run_code_append(
            segment_addr_code(ident, s, i) + seq![op(Dest::D, Comp::M)],
            push_d_code(),
            env,
            m,
        );
        lemma_run_code_append(segment_addr_code(ident, s, i), seq![op(Dest::D, Comp::M)], env, m);
    }
}

proof fn lemma_segment_address_frame(
    env: spec_fn(Seq<char>) -> u16,
    ident: Seq<char>,
    s: Segment,
    i: u16,
    m: Machine,
    n: Machine,
)
    requires
        addressable(s, i),
        forall|x: u16| 1 <= x <= 4 ==> #[trigger] m.ram[x] == n.ram[x],
    ensures
        segment_address(env, ident, s, i, m) == segment_address(env, ident, s, i, n),
{
    reveal_with_fuel(run_code, 5);
    assert(m.ram[1] == n.ram[1]);
    assert(m.ram[2] == n.ram[2]);
    assert(m.ram[3] == n.ram[3]);
    assert(m.ram[4] == n.ram[4]);
}

/// `pop`: the address of the segment cell kept in `R13`, the stack pointer
/// one lower, and the value that was on top of the stack stored in that cell.
pub proof fn law_pop(env: spec_fn(Seq<char>) -> u16, ident: Seq<char>, s: Segment, i: u16, m: Machine)
    requires
        addressable(s, i),
        17 <= sp(m),
    ensures
        ({
            let addr = segment_address(env, ident, s, i, m);
            let top = (sp(m) - 1) as u16;
            let m2 = run_code(pop_code(ident, s, i), env, m);
            &&& m2.ram == m.ram.insert(13, addr).insert(0, top).insert(addr, m.ram[top])
        }),
{
    let first = segment_addr_code(ident, s, i) + seq![
        op(Dest::D, Comp::A),
        at(AddrV::R(13)),
        op(Dest::M, Comp::D),
    ];
    let second = backward_stack_code() + seq![
        op(Dest::D, Comp::M),
        at(AddrV::R(13)),
        op(Dest::A, Comp::M),
        op(Dest::M, Comp::D),
    ];
    assert(pop_code(ident, s, i) =~= first + second);
    lemma_run_code_append(first, second, env, m);
    lemma_run_code_append(
        segment_addr_code(ident, s, i),
        seq![op(Dest::D, Comp::A), at(AddrV::R(13)), op(Dest::M, Comp::D)],
        env,
        m,
    );
    reveal_with_fuel(run_code, 8);
}

/// A `push` followed by a `pop` of the same cell leaves every memory cell as
/// it was, but the scratch cell R13 and the cell just above the stack, and
/// brings the stack pointer back, wherever the stack lies above the
/// registers and below the last cell.
pub proof fn law_push_pop_round_trip(
    env: spec_fn(Seq<char>) -> u16,
    ident: Seq<char>,
    s: Segment,
    i: u16,
    m: Machine,
)
    requires
        addressable(s, i),
        16 <= sp(m) < 0xFFFF,
    ensures
        ({
            let m2 = run_code(push_code(ident, s, i) + pop_code(ident, s, i), env, m);
            &&& sp(m2) == sp(m)
            &&& forall|x: u16| x != 13 && x != sp(m) ==> #[trigger] m2.ram[x] == m.ram[x]
        }),
{
    let sp0 = sp(m);
    lemma_run_code_append(push_code(ident, s, i), pop_code(ident, s, i), env, m);
    law_push(env, ident, s, i, m);
    let m1 = run_code(push_code(ident, s, i), env, m);
    assert(sp(m1) == sp0 + 1);
    law_pop(env, ident, s, i, m1);
    lemma_segment_address_frame(env, ident, s, i, m, m1);
    let addr = segment_address(env, ident, s, i, m);
    assert(m1.ram[sp0] == m.ram[addr]);
}

/// What a binary operator gives for the operands `x` (pushed first) and `y`,
/// in two's-complement 16-bit arithmetic.
pub open spec fn binary_result(c: ArithmeticCommand, x: u16, y: u16) -> u16 {
    match c {
        ArithmeticCommand::Add => wrap(x + y),
        ArithmeticCommand::Sub => wrap(x - y),
        ArithmeticCommand::And => x & y,
        ArithmeticCommand::Or => x | y,
        ArithmeticCommand::Eq => truth(x == y),
        ArithmeticCommand::Gt => truth(signed(x) > signed(y)),
        _ => truth(signed(x) < signed(y)),
    }
}

pub open spec fn is_straight_binary(c: ArithmeticCommand) -> bool {
    c == ArithmeticCommand::Add || c == ArithmeticCommand::Sub || c == ArithmeticCommand::And
        || c == ArithmeticCommand::Or
}

/// `add`, `sub`, `and` and `or` replace the two operands on top of the stack
/// by their result and lower the stack pointer by one.
pub proof fn law_binary_operator(
    env: spec_fn(Seq<char>) -> u16,
    c: ArithmeticCommand,
    k: u64,
    m: Machine,
)
    requires
        is_straight_binary(c),
        18 <= sp(m),
    ensures
        ({
            let s = sp(m);
            let m2 = run_code(arithmetic_code(c, k), env, m);
            &&& sp(m2) == s - 1
            &&& m2.ram[(s - 2) as u16] == binary_result(
                c,
                m.ram[(s - 2) as u16],
                m.ram[(s - 1) as u16],
            )
            &&& forall|x: u16| x != 0 && x != s - 2 ==> #[trigger] m2.ram[x] == m.ram[x]
        }),
{
    let s = sp(m);
    reveal_with_fuel(run_code, 2);
    let head = backward_stack_code() + seq![op(Dest::D, Comp::M)];
    let tail = seq![op(Dest::M, Comp::D)] + advance_stack_code();
    assert(arithmetic_code(c, k) =~= head + operator_code(c, k) + tail);
    lemma_run_code_append(head + operator_code(c, k), tail, env, m);
    lemma_run_code_append(head, operator_code(c, k), env, m);
    let op_ins = operator_code(c, k).last();
    assert(operator_code(c, k) =~= backward_stack_code() + seq![op_ins]);
    lemma_run_code_append(backward_stack_code(), seq![op(Dest::D, Comp::M)], env, m);
    lemma_backward(env, m);
    let m1 = run_code(head, env, m);
    assert(m1.ram == m.ram.insert(0, (s - 1) as u16));
    assert(m1.a == s - 1);
    assert(m1.d == m.ram[(s - 1) as u16]);
    lemma_run_code_append(backward_stack_code(), seq![op_ins], env, m1);
    lemma_backward(env, m1);
    let m2 = run_code(operator_code(c, k), env, m1);
    assert(m2.a == s - 2);
    assert(m2.ram == m.ram.insert(0, (s - 2) as u16));
    let x = m.ram[(s - 2) as u16];
    let y = m.ram[(s - 1) as u16];
    assert(y & x == x & y) by (bit_vector);
    assert(y | x == x | y) by (bit_vector);
    assert(m2.d == binary_result(c, m.ram[(s - 2) as u16], m.ram[(s - 1) as u16]));
    lemma_run_code_append(seq![op(Dest::M, Comp::D)], advance_stack_code(), env, m2);
    lemma_advance(env, run_code(seq![op(Dest::M, Comp::D)], env, m2));
}

/// `neg` and `not` replace the value on top of the stack by its two's
/// complement negation or its bitwise complement, the stack pointer
/// unchanged.
pub proof fn law_unary_operator(env: spec_fn(Seq<char>) -> u16, c: ArithmeticCommand, k: u64, m: Machine)
    requires
        c == ArithmeticCommand::Neg || c == ArithmeticCommand::Not,
        17 <= sp(m) < 0xFFFF,
    ensures
        ({
            let s = sp(m);
            let x = m.ram[(s - 1) as u16];
            let m2 = run_code(arithmetic_code(c, k), env, m);
            &&& sp(m2) == s
            &&& m2.ram[(s - 1) as u16] == if c == ArithmeticCommand::Neg {
                wrap(-x)
            } else {
                !x
            }
            &&& forall|a: u16| a != 0 && a != s - 1 ==> #[trigger] m2.ram[a] == m.ram[a]
        }),
{
    let s = sp(m);
    reveal_with_fuel(run_code, 3);
    let head = backward_stack_code() + seq![op(Dest::D, Comp::M)];
    let tail = seq![op(Dest::M, Comp::D)] + advance_stack_code();
    assert(arithmetic_code(c, k) =~= head + operator_code(c, k) + tail);
    lemma_run_code_append(head + operator_code(c, k), tail, env, m);
    lemma_run_code_append(head, operator_code(c, k), env, m);
    lemma_run_code_append(backward_stack_code(), seq![op(Dest::D, Comp::M)], env, m);
    lemma_backward(env, m);
    let m2 = run_code(head + operator_code(c, k), env, m);
    assert(m2.a == s - 1);
    assert(m2.ram == m.ram.insert(0, (s - 1) as u16));
    lemma_run_code_append(seq![op(Dest::M, Comp::D)], advance_stack_code(), env, m2);
    lemma_advance(env, run_code(seq![op(Dest::M, Comp::D)], env, m2));
}

proof fn lemma_backward(env: spec_fn(Seq<char>) -> u16, m: Machine)
    requires
        1 <= sp(m),
    ensures
        run_code(backward_stack_code(), env, m) == (Machine {
            a: (sp(m) - 1) as u16,
            d: m.d,
            pc: m.pc + 3,
            ram: m.ram.insert(0, (sp(m) - 1) as u16),
        }),
{
    reveal_with_fuel(run_code, 4);
}

proof fn lemma_advance(env: spec_fn(Seq<char>) -> u16, m: Machine)
    requires
        sp(m) < 0xFFFF,
    ensures
        run_code(advance_stack_code(), env, m) == (Machine {
            a: (sp(m) + 1) as u16,
            d: m.d,
            pc: m.pc + 3,
            ram: m.ram.insert(0, (sp(m) + 1) as u16),
        }),
{
    reveal_with_fuel(run_code, 4);
}

/// One step of the machine running `prog`: the instruction at the program
/// counter, with its jump taken where its condition holds. Outside the
/// program the machine stays as it is.
pub open spec fn step(prog: Seq<Ins>, env: spec_fn(Seq<char>) -> u16, m: Machine) -> Machine {
    if 0 <= m.pc < prog.len() {
        let i = prog[m.pc];
        let n = exec_ins(i, env, m);
        match i {
            Ins::C(_, c, j) => if jumps(j, alu(c, m.a, m.d, m.ram[m.a])) {
                Machine { pc: m.a as int, ..n }
            } else {
                n
            },
            _ => n,
        }
    } else {
        m
    }
}

/// `n` steps of the machine running `prog`.
pub open spec fn run(prog: Seq<Ins>, env: spec_fn(Seq<char>) -> u16, m: Machine, n: nat) -> Machine
    decreases n,
{
    if n == 0 {
        m
    } else {
        run(prog, env, step(prog, env, m), (n - 1) as nat)
    }
}

pub open spec fn jump_free_ins(i: Ins) -> bool {
    match i {
        Ins::C(_, _, j) => j == Jump::Null,
        _ => true,
    }
}

/// Code without jumps.
pub open spec fn jump_free(code: Seq<Ins>) -> bool {
    forall|i: int| 0 <= i < code.len() ==> jump_free_ins(#[trigger] code[i])
}

/// `code` stands in `prog` from index `base` on.
pub open spec fn placed(prog: Seq<Ins>, base: int, code: Seq<Ins>) -> bool {
    0 <= base && base + code.len() <= prog.len() && prog.subrange(base, base + code.len()) == code
}

pub proof fn lemma_run_split(prog: Seq<Ins>, env: spec_fn(Seq<char>) -> u16, m: Machine, a: nat, b: nat)
    ensures
        run(prog, env, m, a + b) == run(prog, env, run(prog, env, m, a), b),
    decreases a,
{
    if a > 0 {
        lemma_run_split(prog, env, step(prog, env, m), (a - 1) as nat, b);
        assert((a + b - 1) as nat == (a - 1) as nat + b);
    }
}

proof fn lemma_run_code_pc(code: Seq<Ins>, env: spec_fn(Seq<char>) -> u16, m: Machine)
    ensures
        run_code(code, env, m).pc == m.pc + code.len(),
    decreases code.len(),
{
    if code.len() > 0 {
        lemma_run_code_pc(code.drop_first(), env, exec_ins(code[0], env, m));
    }
}

/// Straight-line code placed in a program runs as `run_code` says.
pub proof fn lemma_straight(prog: Seq<Ins>, env: spec_fn(Seq<char>) -> u16, m: Machine, base: int, code: Seq<Ins>)
    requires
        placed(prog, base, code),
        jump_free(code),
        m.pc == base,
    ensures
        run(prog, env, m, code.len()) == run_code(code, env, m),
        run_code(code, env, m).pc == base + code.len(),
    decreases code.len(),
{
    lemma_run_code_pc(code, env, m);
    if code.len() > 0 {
        assert(prog[base] == prog.subrange(base, base + code.len())[0]);
        assert(jump_free_ins(code[0]));
        let m1 = exec_ins(code[0], env, m);
        assert(step(prog, env, m) == m1);
        assert(prog.subrange(base + 1, base + 1 + code.drop_first().len()) =~= code.drop_first());
        assert forall|i: int| 0 <= i < code.drop_first().len() implies jump_free_ins(
            #[trigger] code.drop_first()[i],
        ) by {
            assert(code.drop_first()[i] == code[i + 1]);
        }
        lemma_straight(prog, env, m1, base + 1, code.drop_first());
    }
}

proof fn lemma_placed_part(prog: Seq<Ins>, base: int, code: Seq<Ins>, from: int, to: int)
    requires
        placed(prog, base, code),
        0 <= from <= to <= code.len(),
    ensures
        placed(prog, base + from, code.subrange(from, to)),
{
    assert(prog.subrange(base + from, base + to) =~= code.subrange(from, to));
}

proof fn lemma_signed_difference(x: u16, y: u16)
    requires
        -32768 <= signed(x) - signed(y) <= 32767,
    ensures
        signed(wrap(x - y)) == signed(x) - signed(y),
{
    let t = signed(x) - signed(y);
    if x < 32768 && y < 32768 {
        assert(x - y == t);
    } else if x < 32768 {
        assert(x - y == t - 65536);
    } else if y < 32768 {
        assert(x - y == t + 65536);
    } else {
        assert(x - y == t);
    }
    if t >= 0 {
        assert(wrap(x - y) == t);
    } else {
        assert(wrap(x - y) == t + 65536);
    }
}

/// Stores `D` on top of the stack and raises the stack pointer.
proof fn lemma_store_top(env: spec_fn(Seq<char>) -> u16, m: Machine)
    requires
        1 <= sp(m) < 0xFFFF,
    ensures
        ({
            let tail = set_stack_top_code() + seq![op(Dest::M, Comp::D)] + advance_stack_code();
            let m2 = run_code(tail, env, m);
            &&& m2.ram == m.ram.insert(sp(m), m.d).insert(0, (sp(m) + 1) as u16)
            &&& m2.d == m.d
        }),
{
    let first = set_stack_top_code() + seq![op(Dest::M, Comp::D)];
    lemma_run_code_append(first, advance_stack_code(), env, m);
    reveal_with_fuel(run_code, 4);
    let m1 = run_code(first, env, m);
    assert(m1.ram == m.ram.insert(sp(m), m.d));
    lemma_advance(env, m1);
}

/// Whether the jump of a comparison fires for the operands `x` and `y`.
proof fn lemma_comparison_jump(c: ArithmeticCommand, x: u16, y: u16)
    requires
        is_relational(c),
        c != ArithmeticCommand::Eq ==> -32768 <= signed(x) - signed(y) <= 32767,
    ensures
        jumps(relational_jump(c), wrap(x - y)) == (binary_result(c, x, y) == 0xFFFF),
        binary_result(c, x, y) == 0xFFFF || binary_result(c, x, y) == 0,
{
    if c == ArithmeticCommand::Eq {
        if x != y {
            assert(wrap(x - y) != 0);
        }
    } else {
        lemma_signed_difference(x, y);
    }
}

/// What a comparison leaves for the operands `x` and `y`: true where the
/// jump condition holds of the wrapped difference `x - y`, else false.
pub open spec fn comparison_word(c: ArithmeticCommand, x: u16, y: u16) -> u16 {
    truth(jumps(relational_jump(c), wrap(x - y)))
}

/// `eq`, `gt` and `lt`, run in a program with their labels resolved, replace
/// the two operands on top of the stack by true (all ones) or false (zero),
/// as the sign of their wrapped difference says, and lower the stack pointer
/// by one, leaving the program counter after their code and every other
/// cell as it was. That word is the comparison of the two operands as
/// signed numbers for `eq` always, and for `gt` and `lt` where their
/// difference fits in 16 signed bits.
pub proof fn law_comparison(
    prog: Seq<Ins>,
    env: spec_fn(Seq<char>) -> u16,
    base: int,
    c: ArithmeticCommand,
    k: u64,
    m: Machine,
)
    requires
        is_relational(c),
        placed(prog, base, arithmetic_code(c, k)),
        env(true_label(c, k)) == base + 13,
        env(end_label(c, k)) == base + 15,
        m.pc == base,
        18 <= sp(m),
    ensures
        exists|n: nat|
            {
                let m2 = #[trigger] run(prog, env, m, n);
                &&& m2.pc == base + 22
                &&& sp(m2) == sp(m) - 1
                &&& m2.ram[(sp(m) - 2) as u16] == comparison_word(
                    c,
                    m.ram[(sp(m) - 2) as u16],
                    m.ram[(sp(m) - 1) as u16],
                )
                &&& forall|a: u16| a != 0 && a != sp(m) - 2 ==> #[trigger] m2.ram[a] == m.ram[a]
            },
        (c == ArithmeticCommand::Eq || -32768 <= signed(m.ram[(sp(m) - 2) as u16]) - signed(
            m.ram[(sp(m) - 1) as u16],
        ) <= 32767) ==> comparison_word(c, m.ram[(sp(m) - 2) as u16], m.ram[(sp(m) - 1) as u16])
            == binary_result(c, m.ram[(sp(m) - 2) as u16], m.ram[(sp(m) - 1) as u16]),
{
    let s = sp(m);
    let x = m.ram[(s - 2) as u16];
    let y = m.ram[(s - 1) as u16];
    let code = arithmetic_code(c, k);
    let tl = true_label(c, k);
    let el = end_label(c, k);
    let j = relational_jump(c);
    let tail = set_stack_top_code() + seq![op(Dest::M, Comp::D)] + advance_stack_code();
    assert(code =~= backward_stack_code() + seq![op(Dest::D, Comp::M)] + backward_stack_code()
        + seq![op(Dest::D, Comp::MMinusD), at(AddrV::Name(tl)), Ins::C(Dest::Null, Comp::D, j),
        op(Dest::D, Comp::Zero), at(AddrV::Name(el)), Ins::C(Dest::Null, Comp::Zero, Jump::JMP),
        Ins::Label(tl), op(Dest::D, Comp::NegOne), Ins::Label(el)] + tail);
    assert(code.len() == 22);
    let s1 = code.subrange(0, 9);
    let s2 = code.subrange(10, 12);
    let s3 = code.subrange(13, 22);
    let s4 = code.subrange(15, 22);
    assert(s1 =~= backward_stack_code() + seq![op(Dest::D, Comp::M)] + backward_stack_code() + seq![
        op(Dest::D, Comp::MMinusD),
        at(AddrV::Name(tl)),
    ]);
    assert(s2 =~= seq![op(Dest::D, Comp::Zero), at(AddrV::Name(el))]);
    assert(s3 =~= seq![Ins::Label(tl), op(Dest::D, Comp::NegOne), Ins::Label(el)] + tail);
    assert(s4 =~= seq![Ins::Label(el)] + tail);
    lemma_placed_part(prog, base, code, 0, 9);
    lemma_placed_part(prog, base, code, 10, 12);
    lemma_placed_part(prog, base, code, 13, 22);
    lemma_placed_part(prog, base, code, 15, 22);
    assert(jump_free(s1)) by {
        assert forall|i: int| 0 <= i < s1.len() implies jump_free_ins(#[trigger] s1[i]) by {
            assert(s1[i] == code[i]);
        }
    }
    assert(jump_free(s2)) by {
        assert forall|i: int| 0 <= i < s2.len() implies jump_free_ins(#[trigger] s2[i]) by {
            assert(s2[i] == code[i + 10]);
        }
    }
    assert(jump_free(s3)) by {
        assert forall|i: int| 0 <= i < s3.len() implies jump_free_ins(#[trigger] s3[i]) by {
            assert(s3[i] == code[i + 13]);
        }
    }
    assert(jump_free(s4)) by {
        assert forall|i: int| 0 <= i < s4.len() implies jump_free_ins(#[trigger] s4[i]) by {
            assert(s4[i] == code[i + 15]);
        }
    }
    // The two pops and the subtraction.
    lemma_straight(prog, env, m, base, s1);
    reveal_with_fuel(run_code, 3);
    let head = backward_stack_code() + seq![op(Dest::D, Comp::M)];
    lemma_run_code_append(head + backward_stack_code(), seq![op(Dest::D, Comp::MMinusD), at(AddrV::Name(tl))], env, m);
    lemma_run_code_append(head, backward_stack_code(), env, m);
    lemma_run_code_append(backward_stack_code(), seq![op(Dest::D, Comp::M)], env, m);
    lemma_backward(env, m);
    let ma = run_code(head, env, m);
    lemma_backward(env, ma);
    let m1 = run_code(s1, env, m);
    assert(m1.d == wrap(x - y));
    assert(m1.a == base + 13);
    assert(m1.ram == m.ram.insert(0, (s - 2) as u16));
    assert(m1.pc == base + 9);
    // The conditional jump.
    assert(prog[base + 9] == code[9]);
    let m2 = run(prog, env, m1, 1);
    reveal_with_fuel(run, 2);
    assert(m2 == step(prog, env, m1));
    if c == ArithmeticCommand::Eq || -32768 <= signed(x) - signed(y) <= 32767 {
        lemma_comparison_jump(c, x, y);
    }
    let r = comparison_word(c, x, y);
    lemma_run_split(prog, env, m, 9, 1);
    if jumps(j, wrap(x - y)) {
        assert(m2 == Machine { pc: base + 13, ..m1 });
        lemma_straight(prog, env, m2, base + 13, s3);
        lemma_run_code_append(seq![Ins::Label(tl), op(Dest::D, Comp::NegOne), Ins::Label(el)], tail, env, m2);
        lemma_run_split(prog, env, m, 10, 9);
        let m3 = run(prog, env, m, 19);
        let mid = run_code(seq![Ins::Label(tl), op(Dest::D, Comp::NegOne), Ins::Label(el)], env, m2);
        reveal_with_fuel(run_code, 4);
        assert(mid.d == 0xFFFF);
        assert(mid.ram == m1.ram);
        lemma_store_top(env, mid);
        assert(m3.pc == base + 22);
        assert(m3.ram[(s - 2) as u16] == r);
        assert(sp(m3) == s - 1);
    } else {
        assert(m2 == Machine { pc: base + 10, ..m1 });
        lemma_straight(prog, env, m2, base + 10, s2);
        lemma_run_split(prog, env, m, 10, 2);
        let m3 = run(prog, env, m, 12);
        assert(m3.a == base + 15);
        assert(m3.d == 0);
        assert(prog[base + 12] == code[12]);
        lemma_run_split(prog, env, m, 12, 1);
        let m4 = run(prog, env, m, 13);
        assert(m4 == step(prog, env, m3));
        lemma_straight(prog, env, m4, base + 15, s4);
        lemma_run_code_append(seq![Ins::Label(el)], tail, env, m4);
        lemma_run_split(prog, env, m, 13, 7);
        let m5 = run(prog, env, m, 20);
        let mid = run_code(seq![Ins::Label(el)], env, m4);
        assert(mid.d == 0);
        assert(mid.ram == m1.ram);
        lemma_store_top(env, mid);
        assert(m5.pc == base + 22);
        assert(m5.ram[(s - 2) as u16] == r);
        assert(sp(m5) == s - 1);
    }
}

/// Pushes the cell at `addr`: the pushed value, the stack pointer one higher.
proof fn lemma_push_cell(env: spec_fn(Seq<char>) -> u16, a: AddrV, m: Machine)
    requires
        a == AddrV::Lcl || a == AddrV::Arg || a == AddrV::This || a == AddrV::That,
        16 <= sp(m) < 0xFFFF,
    ensures
        ({
            let m2 = run_code(push_cell_code(a), env, m);
            m2.ram == m.ram.insert(sp(m), m.ram[resolve(env, a)]).insert(0, (sp(m) + 1) as u16)
        }),
{
    let head = seq![at(a), op(Dest::D, Comp::M)];
    lemma_run_code_append(head, push_d_code(), env, m);
    reveal_with_fuel(run_code, 3);
    let m1 = run_code(head, env, m);
    assert(m1.ram == m.ram);
    lemma_store_top(env, m1);
}

pub open spec fn call_pushes(ret: Seq<char>) -> Seq<Ins> {
    seq![at(AddrV::Name(ret)), op(Dest::D, Comp::A)] + push_d_code() + push_cell_code(AddrV::Lcl)
        + push_cell_code(AddrV::Arg) + push_cell_code(AddrV::This) + push_cell_code(AddrV::That)
}

pub open spec fn call_setup(f: Seq<char>, n: u16) -> Seq<Ins> {
    seq![
        at(AddrV::Sp),
        op(Dest::D, Comp::M),
        at(AddrV::Num(5)),
        op(Dest::D, Comp::DMinusA),
        at(AddrV::Num(n)),
        op(Dest::D, Comp::DMinusA),
        at(AddrV::Arg),
        op(Dest::M, Comp::D),
        at(AddrV::Sp),
        op(Dest::D, Comp::M),
        at(AddrV::Lcl),
        op(Dest::M, Comp::D),
        at(AddrV::Name(f)),
    ]
}

proof fn lemma_call_setup(env: spec_fn(Seq<char>) -> u16, f: Seq<char>, n: u16, m: Machine)
    requires
        n + 5 <= sp(m),
    ensures
        ({
            let m2 = run_code(call_setup(f, n), env, m);
            &&& m2.ram == m.ram.insert(2, (sp(m) - 5 - n) as u16).insert(1, sp(m))
            &&& m2.a == env(f)
        }),
{
    reveal_with_fuel(run_code, 14);
}

proof fn lemma_call_pushes(env: spec_fn(Seq<char>) -> u16, ret: Seq<char>, m: Machine)
    requires
        16 <= sp(m),
        sp(m) + 5 < 0xFFFF,
    ensures
        ({
            let s = sp(m);
            let m2 = run_code(call_pushes(ret), env, m);
            &&& m2.ram[0] == s + 5
            &&& m2.ram[1] == m.ram[1]
            &&& m2.ram[2] == m.ram[2]
            &&& m2.ram[3] == m.ram[3]
            &&& m2.ram[4] == m.ram[4]
            &&& m2.ram[s as u16] == env(ret)
            &&& m2.ram[(s + 1) as u16] == m.ram[1]
            &&& m2.ram[(s + 2) as u16] == m.ram[2]
            &&& m2.ram[(s + 3) as u16] == m.ram[3]
            &&& m2.ram[(s + 4) as u16] == m.ram[4]
        }),
{
    let s = sp(m);
    let load = seq![at(AddrV::Name(ret)), op(Dest::D, Comp::A)];
    let with_ret = load + push_d_code();
    let with_lcl = with_ret + push_cell_code(AddrV::Lcl);
    let with_arg = with_lcl + push_cell_code(AddrV::Arg);
    let with_this = with_arg + push_cell_code(AddrV::This);
    assert(call_pushes(ret) == with_this + push_cell_code(AddrV::That));
    lemma_run_code_append(with_this, push_cell_code(AddrV::That), env, m);
    lemma_run_code_append(with_arg, push_cell_code(AddrV::This), env, m);
    lemma_run_code_append(with_lcl, push_cell_code(AddrV::Arg), env, m);
    lemma_run_code_append(with_ret, push_cell_code(AddrV::Lcl), env, m);
    lemma_run_code_append(load, push_d_code(), env, m);
    lemma_load(env, ret, m);
    let q = run_code(load, env, m);
    lemma_store_top(env, q);
    let m0 = run_code(with_ret, env, m);
    lemma_push_cell(env, AddrV::Lcl, m0);
    let m1 = run_code(with_lcl, env, m);
    lemma_push_cell(env, AddrV::Arg, m1);
    let m2 = run_code(with_arg, env, m);
    lemma_push_cell(env, AddrV::This, m2);
    let m3 = run_code(with_this, env, m);
    lemma_push_cell(env, AddrV::That, m3);
}

proof fn lemma_load(env: spec_fn(Seq<char>) -> u16, ret: Seq<char>, m: Machine)
    ensures
        ({
            let q = run_code(seq![at(AddrV::Name(ret)), op(Dest::D, Comp::A)], env, m);
            q.d == env(ret) && q.ram == m.ram
        }),
{
    reveal_with_fuel(run_code, 3);
}

/// The call sequence up to its jump: the return address and the four
/// pointers saved above the arguments, `ARG` at the first argument, `LCL`
/// above the saved frame, and `A` at the callee.
pub proof fn law_call_frame(env: spec_fn(Seq<char>) -> u16, f: Seq<char>, n: u16, ret: Seq<char>, m: Machine)
    requires
        16 + n <= sp(m),
        sp(m) + 5 < 0xFFFF,
    ensures
        ({
            let s = sp(m);
            let m2 = run_code(call_code(f, n, ret).subrange(0, 53), env, m);
            &&& m2.ram[0] == s + 5
            &&& m2.ram[1] == s + 5
            &&& m2.ram[2] == s - n
            &&& m2.ram[3] == m.ram[3]
            &&& m2.ram[4] == m.ram[4]
            &&& m2.ram[s as u16] == env(ret)
            &&& m2.ram[(s + 1) as u16] == m.ram[1]
            &&& m2.ram[(s + 2) as u16] == m.ram[2]
            &&& m2.ram[(s + 3) as u16] == m.ram[3]
            &&& m2.ram[(s + 4) as u16] == m.ram[4]
            &&& m2.a == env(f)
        }),
{
    assert(call_code(f, n, ret).subrange(0, 53) =~= call_pushes(ret) + call_setup(f, n));
    lemma_run_code_append(call_pushes(ret), call_setup(f, n), env, m);
    lemma_call_pushes(env, ret, m);
    lemma_call_setup(env, f, n, run_code(call_pushes(ret), env, m));
}

/// `n` zeroed locals: the cells from the stack pointer on are zero and the
/// stack pointer is `n` higher; no other cell changes.
pub proof fn law_zero_locals(env: spec_fn(Seq<char>) -> u16, k: nat, m: Machine)
    requires
        16 <= sp(m),
        sp(m) + k < 0xFFFF,
    ensures
        ({
            let zero = set_stack_top_code() + seq![op(Dest::M, Comp::Zero)] + advance_stack_code();
            let m2 = run_code(repeat(zero, k), env, m);
            &&& m2.ram[0] == sp(m) + k
            &&& forall|x: u16|
                x != 0 && (x < sp(m) || x >= sp(m) + k) ==> #[trigger] m2.ram[x] == m.ram[x]
        }),
    decreases k,
{
    let zero = set_stack_top_code() + seq![op(Dest::M, Comp::Zero)] + advance_stack_code();
    if k > 0 {
        law_zero_locals(env, (k - 1) as nat, m);
        lemma_run_code_append(repeat(zero, (k - 1) as nat), zero, env, m);
        let m1 = run_code(repeat(zero, (k - 1) as nat), env, m);
        let first = set_stack_top_code() + seq![op(Dest::M, Comp::Zero)];
        lemma_run_code_append(first, advance_stack_code(), env, m1);
        reveal_with_fuel(run_code, 4);
        let m2 = run_code(first, env, m1);
        assert(m2.ram == m1.ram.insert(m1.ram[0], 0));
        lemma_advance(env, m2);
    }
}

/// Restores the pointer cell `a` from the frame cell below the one `R13`
/// points at.
proof fn lemma_restore(env: spec_fn(Seq<char>) -> u16, a: AddrV, m: Machine)
    requires
        a == AddrV::Lcl || a == AddrV::Arg || a == AddrV::This || a == AddrV::That,
        17 <= m.ram[13],
    ensures
        ({
            let p = (m.ram[13] - 1) as u16;
            run_code(restore_code(a), env, m).ram == m.ram.insert(13, p).insert(
                resolve(env, a),
                m.ram[p],
            )
        }),
{
    reveal_with_fuel(run_code, 6);
}

pub open spec fn return_head() -> Seq<Ins> {
    seq![
        at(AddrV::Lcl),
        op(Dest::D, Comp::M),
        at(AddrV::R(13)),
        op(Dest::M, Comp::D),
        at(AddrV::Num(5)),
        op(Dest::A, Comp::DMinusA),
        op(Dest::D, Comp::M),
        at(AddrV::R(14)),
        op(Dest::M, Comp::D),
    ] + backward_stack_code() + seq![
        op(Dest::D, Comp::M),
        at(AddrV::Arg),
        op(Dest::A, Comp::M),
        op(Dest::M, Comp::D),
        at(AddrV::Arg),
        op(Dest::D, Comp::MPlusOne),
        at(AddrV::Sp),
        op(Dest::M, Comp::D),
    ]
}

#[verifier::rlimit(60)]
proof fn lemma_return_head(env: spec_fn(Seq<char>) -> u16, m: Machine)
    requires
        16 <= m.ram[2],
        m.ram[2] + 5 <= m.ram[1],
        m.ram[1] < m.ram[0],
        m.ram[0] < 0xFFFF,
    ensures
        ({
            let fr = m.ram[1];
            let arg = m.ram[2];
            let top = (m.ram[0] - 1) as u16;
            run_code(return_head(), env, m).ram == m.ram.insert(13, fr).insert(
                14,
                m.ram[(fr - 5) as u16],
            ).insert(0, top).insert(arg, m.ram[top]).insert(0, (arg + 1) as u16)
        }),
{
    reveal_with_fuel(run_code, 21);
}

/// The return sequence up to its jump, in a frame whose base `LCL` lies
/// above the argument cell: the top of the stack moved to the argument
/// cell, the stack pointer just above it, the four pointers read back from
/// below the frame base, and `A` at the saved return address.
pub proof fn law_return_frame(env: spec_fn(Seq<char>) -> u16, m: Machine)
    requires
        16 <= m.ram[2],
        m.ram[2] + 5 <= m.ram[1],
        m.ram[1] < m.ram[0],
        m.ram[0] < 0xFFFF,
    ensures
        ({
            let fr = m.ram[1];
            let arg = m.ram[2];
            let m2 = run_code(return_code().subrange(0, 42), env, m);
            &&& m2.ram[0] == arg + 1
            &&& m2.ram[arg] == m.ram[(m.ram[0] - 1) as u16]
            &&& m2.ram[1] == m.ram[(fr - 4) as u16]
            &&& m2.ram[2] == m.ram[(fr - 3) as u16]
            &&& m2.ram[3] == m.ram[(fr - 2) as u16]
            &&& m2.ram[4] == m.ram[(fr - 1) as u16]
            &&& m2.a == m.ram[(fr - 5) as u16]
        }),
{
    let c0 = return_head();
    let c1 = c0 + restore_code(AddrV::That);
    let c2 = c1 + restore_code(AddrV::This);
    let c3 = c2 + restore_code(AddrV::Arg);
    let c4 = c3 + restore_code(AddrV::Lcl);
    let last = seq![at(AddrV::R(14)), op(Dest::A, Comp::M)];
    assert(return_code().subrange(0, 42) =~= c4 + last);
    lemma_run_code_append(c4, last, env, m);
    lemma_run_code_append(c3, restore_code(AddrV::Lcl), env, m);
    lemma_run_code_append(c2, restore_code(AddrV::Arg), env, m);
    lemma_run_code_append(c1, restore_code(AddrV::This), env, m);
    lemma_run_code_append(c0, restore_code(AddrV::That), env, m);
    lemma_return_head(env, m);
    let r0 = run_code(c0, env, m);
    lemma_restore(env, AddrV::That, r0);
    let r1 = run_code(c1, env, m);
    lemma_restore(env, AddrV::This, r1);
    let r2 = run_code(c2, env, m);
    lemma_restore(env, AddrV::Arg, r2);
    let r3 = run_code(c3, env, m);
    lemma_restore(env, AddrV::Lcl, r3);
    let r4 = run_code(c4, env, m);
    lemma_load_a(env, r4);
}

proof fn lemma_load_a(env: spec_fn(Seq<char>) -> u16, m: Machine)
    ensures
        ({
            let q = run_code(seq![at(AddrV::R(14)), op(Dest::A, Comp::M)], env, m);
            q.a == m.ram[14] && q.ram == m.ram
        }),
{
    reveal_with_fuel(run_code, 3);
}

proof fn lemma_jump_free_append(a: Seq<Ins>, b: Seq<Ins>)
    requires
        jump_free(a),
        jump_free(b),
    ensures
        jump_free(a + b),
{
    assert forall|i: int| 0 <= i < (a + b).len() implies jump_free_ins(#[trigger] (a + b)[i]) by {
        if i < a.len() {
            assert((a + b)[i] == a[i]);
        } else {
            assert((a + b)[i] == b[i - a.len()]);
        }
    }
}

proof fn lemma_repeat(code: Seq<Ins>, k: nat)
    requires
        jump_free(code),
    ensures
        jump_free(repeat(code, k)),
        repeat(code, k).len() == k * code.len(),
    decreases k,
{
    if k > 0 {
        lemma_repeat(code, (k - 1) as nat);
        lemma_jump_free_append(repeat(code, (k - 1) as nat), code);
        assert(k * code.len() == (k - 1) * code.len() + code.len()) by (nonlinear_arith);
    } else {
        assert(k * code.len() == 0) by (nonlinear_arith)
            requires
                k == 0,
        ;
    }
}

proof fn lemma_label_step(prog: Seq<Ins>, env: spec_fn(Seq<char>) -> u16, m: Machine, l: Seq<char>)
    requires
        0 <= m.pc < prog.len(),
        prog[m.pc] == Ins::Label(l),
    ensures
        run(prog, env, m, 1) == (Machine { pc: m.pc + 1, ..m }),
{
    reveal_with_fuel(run, 2);
}

proof fn lemma_jump_step(prog: Seq<Ins>, env: spec_fn(Seq<char>) -> u16, m: Machine)
    requires
        0 <= m.pc < prog.len(),
        prog[m.pc] == Ins::C(Dest::Null, Comp::Zero, Jump::JMP),
    ensures
        run(prog, env, m, 1) == (Machine { pc: m.a as int, ..m }),
{
    reveal_with_fuel(run, 2);
}

/// What a callee body must do, run in a frame: `ARG` at least 16, the frame
/// base `LCL` at least five cells above it, and the stack top at or above
/// `LCL`. It pushes one value, keeps `LCL` and `ARG`, and keeps the five cells
/// below `LCL` that hold the caller's frame.
pub open spec fn body_effect(body: Seq<Ins>, env: spec_fn(Seq<char>) -> u16, q: Machine) -> bool {
    let r = run_code(body, env, q);
    &&& r.ram[0] == q.ram[0] + 1
    &&& r.ram[1] == q.ram[1]
    &&& r.ram[2] == q.ram[2]
    &&& forall|a: u16| q.ram[1] - 5 <= a < q.ram[1] ==> #[trigger] r.ram[a] == q.ram[a]
}

pub open spec fn in_frame(q: Machine) -> bool {
    16 <= q.ram[2] && q.ram[2] + 5 <= q.ram[1] && q.ram[1] <= q.ram[0] && q.ram[0] + 1 < 0xFFFF
}

/// Straight-line code that, in every frame, pushes exactly one value and
/// leaves the frame alone.
pub open spec fn pushes_one(body: Seq<Ins>, env: spec_fn(Seq<char>) -> u16) -> bool {
    &&& jump_free(body)
    &&& forall|q: Machine| in_frame(q) ==> #[trigger] body_effect(body, env, q)
}

/// `push constant v` is such a body.
pub proof fn law_push_constant_pushes_one(env: spec_fn(Seq<char>) -> u16, ident: Seq<char>, v: u16)
    ensures
        pushes_one(push_code(ident, Segment::Constant, v), env),
{
    let b = push_code(ident, Segment::Constant, v);
    assert(jump_free(b)) by {
        assert forall|i: int| 0 <= i < b.len() implies jump_free_ins(#[trigger] b[i]) by {}
    }
    assert forall|q: Machine| in_frame(q) implies #[trigger] body_effect(b, env, q) by {
        law_push(env, ident, Segment::Constant, v, q);
    }
}

/// A call of a function with `n` arguments and `k` locals, whose body pushes
/// one value and leaves the frame alone, comes back to the instruction after
/// the call. There the `n` arguments are replaced by the value on top of the
/// stack when the body ended (the stack `n - 1` cells lower than before the
/// call), and the four pointer cells `LCL`, `ARG`, `THIS` and `THAT` hold what
/// they held before the call, whatever the body did to `THIS` and `THAT`. The
/// stack lies above the registers and the frame fits below the last cell.
pub proof fn law_call_return(
    prog: Seq<Ins>,
    env: spec_fn(Seq<char>) -> u16,
    f: Seq<char>,
    n: u16,
    k: u16,
    body: Seq<Ins>,
    ret: Seq<char>,
    call_at: int,
    fn_at: int,
    m: Machine,
)
    requires
        placed(prog, call_at, call_code(f, n, ret)),
        placed(prog, fn_at, function_code(f, k) + body + return_code()),
        pushes_one(body, env),
        env(f) == fn_at,
        env(ret) == call_at + 54,
        m.pc == call_at,
        16 + n <= sp(m),
        sp(m) + 6 + k < 0xFFFF,
    ensures
        ({
            let ended = run(prog, env, m, (55 + 6 * k + body.len()) as nat);
            let m2 = run(prog, env, m, (55 + 6 * k + body.len() + 44) as nat);
            &&& ended.pc == fn_at + 1 + 6 * k + body.len()
            &&& m2.pc == call_at + 55
            &&& sp(m2) == sp(m) - n + 1
            &&& m2.ram[(sp(m) - n) as u16] == ended.ram[(sp(ended) - 1) as u16]
            &&& m2.ram[1] == m.ram[1]
            &&& m2.ram[2] == m.ram[2]
            &&& m2.ram[3] == m.ram[3]
            &&& m2.ram[4] == m.ram[4]
        }),
{
    let s = sp(m);
    let call = call_code(f, n, ret);
    let zero = set_stack_top_code() + seq![op(Dest::M, Comp::Zero)] + advance_stack_code();
    let entry = function_code(f, k) + body;
    let whole = entry + return_code();
    // Lengths and the absence of jumps in the straight parts.
    assert(jump_free(zero)) by {
        assert forall|i: int| 0 <= i < zero.len() implies jump_free_ins(#[trigger] zero[i]) by {}
    }
    lemma_repeat(zero, k as nat);
    assert(zero.len() == 6);
    assert(jump_free(seq![Ins::Label(f)])) by {
        assert forall|i: int| 0 <= i < 1 implies jump_free_ins(#[trigger] seq![Ins::Label(f)][i]) by {}
    }
    lemma_jump_free_append(seq![Ins::Label(f)], repeat(zero, k as nat));
    lemma_jump_free_append(function_code(f, k), body);
    let blen = entry.len();
    assert(blen == 1 + 6 * k + body.len());
    let call_pre = call.subrange(0, 53);
    assert(call_pre =~= call_pushes(ret) + call_setup(f, n));
    assert(jump_free(call_pre)) by {
        assert forall|i: int| 0 <= i < call_pre.len() implies jump_free_ins(#[trigger] call_pre[i]) by {}
    }
    let ret_pre = return_code().subrange(0, 42);
    assert(jump_free(ret_pre)) by {
        assert forall|i: int| 0 <= i < ret_pre.len() implies jump_free_ins(#[trigger] ret_pre[i]) by {}
    }
    assert(call.len() == 55);
    assert(return_code().len() == 43);
    // The call sequence up to its jump.
    lemma_placed_part(prog, call_at, call, 0, 53);
    lemma_straight(prog, env, m, call_at, call_pre);
    law_call_frame(env, f, n, ret, m);
    let m1 = run(prog, env, m, 53);
    // The jump to the callee.
    assert(prog[call_at + 53] == call[53]);
    lemma_jump_step(prog, env, m1);
    lemma_run_split(prog, env, m, 53, 1);
    let m2 = run(prog, env, m, 54);
    assert(m2.pc == fn_at);
    // The entry, the locals and the body.
    lemma_placed_part(prog, fn_at, whole, 0, blen as int);
    assert(whole.subrange(0, blen as int) =~= entry);
    lemma_straight(prog, env, m2, fn_at, entry);
    lemma_run_split(prog, env, m, 54, blen);
    let m3 = run(prog, env, m, 54 + blen);
    assert(54 + blen == 55 + 6 * k + body.len());
    lemma_run_code_append(function_code(f, k), body, env, m2);
    lemma_run_code_append(seq![Ins::Label(f)], repeat(zero, k as nat), env, m2);
    reveal_with_fuel(run_code, 2);
    let me = run_code(seq![Ins::Label(f)], env, m2);
    assert(me.ram == m2.ram);
    law_zero_locals(env, k as nat, me);
    let ml = run_code(function_code(f, k), env, m2);
    assert(ml.ram[0] == s + 5 + k);
    assert(ml.ram[1] == s + 5);
    assert(ml.ram[2] == s - n);
    assert(in_frame(ml));
    assert(body_effect(body, env, ml));
    assert(m3.ram[0] == s + 6 + k);
    assert(m3.ram[1] == s + 5);
    assert(m3.ram[2] == s - n);
    assert(m3.ram[s as u16] == ml.ram[s as u16]);
    assert(m3.ram[(s + 1) as u16] == ml.ram[(s + 1) as u16]);
    assert(m3.ram[(s + 2) as u16] == ml.ram[(s + 2) as u16]);
    assert(m3.ram[(s + 3) as u16] == ml.ram[(s + 3) as u16]);
    assert(m3.ram[(s + 4) as u16] == ml.ram[(s + 4) as u16]);
    assert(m3.ram[s as u16] == call_at + 54);
    assert(m3.ram[(s + 1) as u16] == m.ram[1]);
    assert(m3.ram[(s + 2) as u16] == m.ram[2]);
    assert(m3.ram[(s + 3) as u16] == m.ram[3]);
    assert(m3.ram[(s + 4) as u16] == m.ram[4]);
    assert(m3.pc == fn_at + blen);
    // The return sequence up to its jump.
    lemma_placed_part(prog, fn_at, whole, blen as int, (blen + 42) as int);
    assert(whole.subrange(blen as int, (blen + 42) as int) =~= ret_pre);
    lemma_straight(prog, env, m3, fn_at + blen, ret_pre);
    law_return_frame(env, m3);
    lemma_run_split(prog, env, m, 54 + blen, 42);
    let m4 = run(prog, env, m, 54 + blen + 42);
    assert(m4.a == call_at + 54);
    // The jump back and the return label.
    assert(prog[fn_at + blen + 42] == whole[(blen + 42) as int]);
    assert(whole[(blen + 42) as int] == return_code()[42]);
    lemma_jump_step(prog, env, m4);
    lemma_run_split(prog, env, m, 54 + blen + 42, 1);
    let m5 = run(prog, env, m, 54 + blen + 43);
    assert(prog[call_at + 54] == call[54]);
    lemma_label_step(prog, env, m5, ret);
    lemma_run_split(prog, env, m, 54 + blen + 43, 1);
    let m6 = run(prog, env, m, 54 + blen + 44);
    assert(m6.pc == call_at + 55);
    assert(sp(m6) == s - n + 1);
}

/// `goto`: two steps later control is at the label the jump names, and no
/// memory cell has changed.
pub proof fn law_goto(prog: Seq<Ins>, env: spec_fn(Seq<char>) -> u16, base: int, target: Seq<char>, m: Machine)
    requires
        placed(prog, base, seq![at(AddrV::Name(target)), Ins::C(Dest::Null, Comp::Zero, Jump::JMP)]),
        m.pc == base,
    ensures
        run(prog, env, m, 2).pc == env(target),
        run(prog, env, m, 2).ram == m.ram,
{
    let code = seq![at(AddrV::Name(target)), Ins::C(Dest::Null, Comp::Zero, Jump::JMP)];
    assert(prog[base] == code[0]);
    assert(prog[base + 1] == code[1]);
    reveal_with_fuel(run, 3);
}

/// `if-goto`: the stack pointer one lower whatever the popped value, no other
/// cell changed, and control at the label the jump names where that value is
/// not zero, else at the instruction after the code.
pub proof fn law_if_goto(prog: Seq<Ins>, env: spec_fn(Seq<char>) -> u16, base: int, target: Seq<char>, m: Machine)
    requires
        placed(
            prog,
            base,
            backward_stack_code() + seq![
                op(Dest::D, Comp::M),
                at(AddrV::Name(target)),
                Ins::C(Dest::Null, Comp::D, Jump::JNE),
            ],
        ),
        m.pc == base,
        17 <= sp(m),
    ensures
        ({
            let v = m.ram[(sp(m) - 1) as u16];
            let m2 = run(prog, env, m, 6);
            &&& m2.ram == m.ram.insert(0, (sp(m) - 1) as u16)
            &&& m2.pc == if v != 0 {
                env(target) as int
            } else {
                base + 6
            }
        }),
{
    let code = backward_stack_code() + seq![
        op(Dest::D, Comp::M),
        at(AddrV::Name(target)),
        Ins::C(Dest::Null, Comp::D, Jump::JNE),
    ];
    let pre = code.subrange(0, 5);
    assert(pre =~= backward_stack_code() + seq![op(Dest::D, Comp::M), at(AddrV::Name(target))]);
    assert(jump_free(pre)) by {
        assert forall|i: int| 0 <= i < pre.len() implies jump_free_ins(#[trigger] pre[i]) by {}
    }
    lemma_placed_part(prog, base, code, 0, 5);
    lemma_straight(prog, env, m, base, pre);
    lemma_run_code_append(backward_stack_code(), seq![op(Dest::D, Comp::M), at(AddrV::Name(target))], env, m);
    lemma_backward(env, m);
    reveal_with_fuel(run_code, 3);
    let m1 = run(prog, env, m, 5);
    assert(m1.d == m.ram[(sp(m) - 1) as u16]);
    assert(m1.ram == m.ram.insert(0, (sp(m) - 1) as u16));
    assert(prog[base + 5] == code[5]);
    lemma_run_split(prog, env, m, 5, 1);
    reveal_with_fuel(run, 2);
}

} // verus!

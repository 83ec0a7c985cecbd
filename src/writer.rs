//! The code generator: lowers VM commands to Hack assembly against an
//! operand stack held in memory, with the stack-frame calling convention.
use vstd::prelude::*;
use crate::command::{ArithmeticCommand, CommandV, PushPop, PushPopCommand, Segment};
use crate::hack::{asm_views, code_text, render_code, Addr, AddrV, Asm, Comp, Dest, Ins, Jump};
use crate::text::{dec, push_dec, string_of};

verus! {

/// The fatal errors of code generation.
#[derive(Debug, Clone, Copy, PartialEq, Eq, Structural)]
pub enum GenError {
    /// `pop constant`: the constant segment has no address.
    ConstantNotAddressable,
    /// A static index above 240, a temp index above 7, or a pointer index
    /// other than 0 and 1.
    IndexOutOfRange,
    /// `return` with no open function.
    ReturnOutsideFunction,
    /// The counter that names generated labels has no fresh value left.
    LabelSpaceExhausted,
    /// `function` while another function is still open, or the end of the
    /// unit with a function open: a `function` without its `return`.
    UnclosedFunction,
}

/// What the generator holds between commands.
pub struct GenState {
    /// The unit identifier.
    pub ident: Seq<char>,
    /// The open functions, innermost last.
    pub names: Seq<Seq<char>>,
    /// The counter that makes generated labels unique.
    pub count: u64,
    /// The instructions emitted so far.
    pub code: Seq<Ins>,
}

pub open spec fn at(a: AddrV) -> Ins {
    Ins::At(a)
}

pub open spec fn op(d: Dest, c: Comp) -> Ins {
    Ins::C(d, c, Jump::Null)
}

/// `A` = the stack top cell.
pub open spec fn set_stack_top_code() -> Seq<Ins> {
    seq![at(AddrV::Sp), op(Dest::A, Comp::M)]
}

/// `SP` += 1, then `A` = the stack top cell.
pub open spec fn advance_stack_code() -> Seq<Ins> {
    seq![at(AddrV::Sp), op(Dest::M, Comp::MPlusOne), op(Dest::A, Comp::M)]
}

/// `SP` -= 1, then `A` = the stack top cell.
pub open spec fn backward_stack_code() -> Seq<Ins> {
    seq![at(AddrV::Sp), op(Dest::M, Comp::MMinusOne), op(Dest::A, Comp::M)]
}

/// Pushes the value in `D`.
pub open spec fn push_d_code() -> Seq<Ins> {
    set_stack_top_code() + seq![op(Dest::M, Comp::D)] + advance_stack_code()
}

pub open spec fn relational_name(c: ArithmeticCommand) -> Seq<char> {
    match c {
        ArithmeticCommand::Eq => "EQ"@,
        ArithmeticCommand::Gt => "GT"@,
        _ => "LT"@,
    }
}

pub open spec fn relational_jump(c: ArithmeticCommand) -> Jump {
    match c {
        ArithmeticCommand::Eq => Jump::JEQ,
        ArithmeticCommand::Gt => Jump::JGT,
        _ => Jump::JLT,
    }
}

pub open spec fn is_relational(c: ArithmeticCommand) -> bool {
    c == ArithmeticCommand::Eq || c == ArithmeticCommand::Gt || c == ArithmeticCommand::Lt
}

pub open spec fn true_label(c: ArithmeticCommand, k: u64) -> Seq<char> {
    relational_name(c) + "_TRUE_"@ + dec(k as nat)
}

pub open spec fn end_label(c: ArithmeticCommand, k: u64) -> Seq<char> {
    relational_name(c) + "_END_"@ + dec(k as nat)
}

/// The branch of a comparison: `D` = -1 where `D` meets the condition, else 0.
pub open spec fn compare_code(c: ArithmeticCommand, k: u64) -> Seq<Ins> {
    seq![
        at(AddrV::Name(true_label(c, k))),
        Ins::C(Dest::Null, Comp::D, relational_jump(c)),
        op(Dest::D, Comp::Zero),
        at(AddrV::Name(end_label(c, k))),
        Ins::C(Dest::Null, Comp::Zero, Jump::JMP),
        Ins::Label(true_label(c, k)),
        op(Dest::D, Comp::NegOne),
        Ins::Label(end_label(c, k)),
    ]
}

/// With the second operand in `D` and `A` at its cell: the result in `D`
/// and `A` at the cell that receives it.
pub open spec fn operator_code(c: ArithmeticCommand, k: u64) -> Seq<Ins> {
    match c {
        ArithmeticCommand::Add => backward_stack_code() + seq![op(Dest::D, Comp::DPlusM)],
        ArithmeticCommand::Sub => backward_stack_code() + seq![op(Dest::D, Comp::MMinusD)],
        ArithmeticCommand::And => backward_stack_code() + seq![op(Dest::D, Comp::DAndM)],
        ArithmeticCommand::Or => backward_stack_code() + seq![op(Dest::D, Comp::DOrM)],
        ArithmeticCommand::Neg => seq![op(Dest::D, Comp::NegM)],
        ArithmeticCommand::Not => seq![op(Dest::D, Comp::NotM)],
        _ => backward_stack_code() + seq![op(Dest::D, Comp::MMinusD)] + compare_code(c, k)
            + set_stack_top_code(),
    }
}

/// The code of an operator; `k` names the labels of a comparison.
pub open spec fn arithmetic_code(c: ArithmeticCommand, k: u64) -> Seq<Ins> {
    backward_stack_code() + seq![op(Dest::D, Comp::M)] + operator_code(c, k) + seq![
        op(Dest::M, Comp::D),
    ] + advance_stack_code()
}

/// Whether `segment index` names a cell.
pub open spec fn addressable(s: Segment, i: u16) -> bool {
    match s {
        Segment::Constant => false,
        Segment::Static => i <= 240,
        Segment::Temp => i <= 7,
        Segment::Pointer => i <= 1,
        _ => true,
    }
}

pub open spec fn static_name(ident: Seq<char>, i: u16) -> Seq<char> {
    ident + seq!['.'] + dec(i as nat)
}

pub open spec fn base_addr(s: Segment) -> AddrV {
    match s {
        Segment::Local => AddrV::Lcl,
        Segment::Argument => AddrV::Arg,
        Segment::This => AddrV::This,
        _ => AddrV::That,
    }
}

pub open spec fn is_indirect(s: Segment) -> bool {
    s == Segment::Local || s == Segment::Argument || s == Segment::This || s == Segment::That
}

/// Sets `A` to the address of `segment index`.
pub open spec fn segment_addr_code(ident: Seq<char>, s: Segment, i: u16) -> Seq<Ins> {
    if is_indirect(s) {
        seq![at(base_addr(s)), op(Dest::D, Comp::M), at(AddrV::Num(i)), op(Dest::A, Comp::DPlusA)]
    } else if s == Segment::Static {
        seq![at(AddrV::Name(static_name(ident, i)))]
    } else if s == Segment::Temp {
        seq![at(AddrV::R((5 + i) as u16))]
    } else if i == 0 {
        seq![at(AddrV::This)]
    } else {
        seq![at(AddrV::That)]
    }
}

pub open spec fn push_code(ident: Seq<char>, s: Segment, i: u16) -> Seq<Ins> {
    if s == Segment::Constant {
        seq![at(AddrV::Num(i)), op(Dest::D, Comp::A)] + push_d_code()
    } else {
        segment_addr_code(ident, s, i) + seq![op(Dest::D, Comp::M)] + push_d_code()
    }
}

pub open spec fn pop_code(ident: Seq<char>, s: Segment, i: u16) -> Seq<Ins> {
    segment_addr_code(ident, s, i) + seq![
        op(Dest::D, Comp::A),
        at(AddrV::R(13)),
        op(Dest::M, Comp::D),
    ] + backward_stack_code() + seq![
        op(Dest::D, Comp::M),
        at(AddrV::R(13)),
        op(Dest::A, Comp::M),
        op(Dest::M, Comp::D),
    ]
}

/// The name that qualifies labels: the innermost open function, or the unit
/// identifier where no function is open.
pub open spec fn qualifier(ident: Seq<char>, names: Seq<Seq<char>>) -> Seq<char> {
    if names.len() == 0 {
        ident
    } else {
        names.last()
    }
}

pub open spec fn qualified(ident: Seq<char>, names: Seq<Seq<char>>, label: Seq<char>) -> Seq<
    char,
> {
    qualifier(ident, names) + seq!['.'] + label
}

pub open spec fn repeat(s: Seq<Ins>, n: nat) -> Seq<Ins>
    decreases n,
{
    if n == 0 {
        Seq::empty()
    } else {
        repeat(s, (n - 1) as nat) + s
    }
}

/// Entry label, then `n` zeroed locals.
pub open spec fn function_code(name: Seq<char>, n: u16) -> Seq<Ins> {
    seq![Ins::Label(name)] + repeat(
        set_stack_top_code() + seq![op(Dest::M, Comp::Zero)] + advance_stack_code(),
        n as nat,
    )
}

pub open spec fn return_label(ident: Seq<char>, k: u64) -> Seq<char> {
    ident + "$ret."@ + dec(k as nat)
}

/// Pushes the value of the cell named by `a`.
pub open spec fn push_cell_code(a: AddrV) -> Seq<Ins> {
    seq![at(a), op(Dest::D, Comp::M)] + push_d_code()
}

pub open spec fn call_code(name: Seq<char>, n: u16, ret: Seq<char>) -> Seq<Ins> {
    seq![at(AddrV::Name(ret)), op(Dest::D, Comp::A)] + push_d_code() + push_cell_code(AddrV::Lcl)
        + push_cell_code(AddrV::Arg) + push_cell_code(AddrV::This) + push_cell_code(AddrV::That)
        + seq![
        at(AddrV::Sp),
        op(Dest::D, Comp::M),
        at(AddrV::Num(5)),
        op(Dest::D, Comp::DMinusA),
        at(AddrV::Num(n)),
        op(Dest::D, Comp::DMinusA),
        at(AddrV::Arg),
        op(Dest::M, Comp::D),
        at(AddrV::Sp),
        op(Dest::D, Comp::M),
        at(AddrV::Lcl),
        op(Dest::M, Comp::D),
        at(AddrV::Name(name)),
        Ins::C(Dest::Null, Comp::Zero, Jump::JMP),
        Ins::Label(ret),
    ]
}

/// Restores the cell named by `a` from the frame cell below the one `R13`
/// points at, moving `R13` down.
pub open spec fn restore_code(a: AddrV) -> Seq<Ins> {
    seq![at(AddrV::R(13)), op(Dest::AM, Comp::MMinusOne), op(Dest::D, Comp::M), at(a), op(Dest::M, Comp::D)]
}

pub open spec fn return_code() -> Seq<Ins> {
    seq![
        at(AddrV::Lcl),
        op(Dest::D, Comp::M),
        at(AddrV::R(13)),
        op(Dest::M, Comp::D),
        at(AddrV::Num(5)),
        op(Dest::A, Comp::DMinusA),
        op(Dest::D, Comp::M),
        at(AddrV::R(14)),
        op(Dest::M, Comp::D),
    ] + backward_stack_code() + seq![
        op(Dest::D, Comp::M),
        at(AddrV::Arg),
        op(Dest::A, Comp::M),
        op(Dest::M, Comp::D),
        at(AddrV::Arg),
        op(Dest::D, Comp::MPlusOne),
        at(AddrV::Sp),
        op(Dest::M, Comp::D),
    ] + restore_code(AddrV::That) + restore_code(AddrV::This) + restore_code(AddrV::Arg)
        + restore_code(AddrV::Lcl) + seq![
        at(AddrV::R(14)),
        op(Dest::A, Comp::M),
        Ins::C(Dest::Null, Comp::Zero, Jump::JMP),
    ]
}

pub open spec fn init_code() -> Seq<Ins> {
    seq![at(AddrV::Num(256)), op(Dest::D, Comp::A), at(AddrV::Sp), op(Dest::M, Comp::D)]
}

pub open spec fn end_name(ident: Seq<char>) -> Seq<char> {
    ident + ".END"@
}

pub open spec fn finalize_code(ident: Seq<char>) -> Seq<Ins> {
    seq![
        Ins::Label(end_name(ident)),
        at(AddrV::Name(end_name(ident))),
        Ins::C(Dest::Null, Comp::Zero, Jump::JMP),
    ]
}

pub open spec fn emit(st: GenState, code: Seq<Ins>) -> GenState {
    GenState { code: st.code + code, ..st }
}

/// What a command does to the generator: the new state, or the error that
/// stops generation.
pub open spec fn apply(st: GenState, c: CommandV) -> Result<GenState, GenError> {
    match c {
        CommandV::PushPop(p) => {
            if p.kind == PushPop::Push {
                if p.segment == Segment::Constant || addressable(p.segment, p.index) {
                    Ok(emit(st, push_code(st.ident, p.segment, p.index)))
                } else {
                    Err(GenError::IndexOutOfRange)
                }
            } else if p.segment == Segment::Constant {
                Err(GenError::ConstantNotAddressable)
            } else if addressable(p.segment, p.index) {
                Ok(emit(st, pop_code(st.ident, p.segment, p.index)))
            } else {
                Err(GenError::IndexOutOfRange)
            }
        },
        CommandV::Arithmetic(a) => {
            if is_relational(a) {
                if st.count == u64::MAX {
                    Err(GenError::LabelSpaceExhausted)
                } else {
                    Ok(
                        GenState {
                            count: (st.count + 1) as u64,
                            ..emit(st, arithmetic_code(a, st.count))
                        },
                    )
                }
            } else {
                Ok(emit(st, arithmetic_code(a, st.count)))
            }
        },
        CommandV::Label(l) => Ok(emit(st, seq![Ins::Label(qualified(st.ident, st.names, l))])),
        CommandV::GoTo(l) => Ok(
            emit(
                st,
                seq![
                    at(AddrV::Name(qualified(st.ident, st.names, l))),
                    Ins::C(Dest::Null, Comp::Zero, Jump::JMP),
                ],
            ),
        ),
        CommandV::IfGoTo(l) => Ok(
            emit(
                st,
                backward_stack_code() + seq![
                    op(Dest::D, Comp::M),
                    at(AddrV::Name(qualified(st.ident, st.names, l))),
                    Ins::C(Dest::Null, Comp::D, Jump::JNE),
                ],
            ),
        ),
        CommandV::Function { name, n_locals } => {
            if st.names.len() > 0 {
                Err(GenError::UnclosedFunction)
            } else {
                Ok(
                    GenState {
                        names: st.names.push(name),
                        ..emit(st, function_code(name, n_locals))
                    },
                )
            }
        },
        CommandV::Call { name, n_args } => {
            if st.count == u64::MAX {
                Err(GenError::LabelSpaceExhausted)
            } else {
                Ok(
                    GenState {
                        count: (st.count + 1) as u64,
                        ..emit(st, call_code(name, n_args, return_label(st.ident, st.count)))
                    },
                )
            }
        },
        CommandV::Return => {
            if st.names.len() == 0 {
                Err(GenError::ReturnOutsideFunction)
            } else {
                Ok(GenState { names: st.names.drop_last(), ..emit(st, return_code()) })
            }
        },
    }
}

/// Whether `r` and the move from `pre` to `post` are what `apply` gives for `c`;
/// an error leaves the state as it was.
pub open spec fn applied(pre: GenState, post: GenState, c: CommandV, r: Result<(), GenError>) -> bool {
    match r {
        Ok(()) => apply(pre, c) == Ok::<GenState, GenError>(post),
        Err(e) => apply(pre, c) == Err::<GenState, GenError>(e) && post == pre,
    }
}

fn join(a: Vec<Asm>, b: Vec<Asm>) -> (r: Vec<Asm>)
    ensures
        asm_views(r@) == asm_views(a@) + asm_views(b@),
{
    let mut a = a;
    let mut b = b;
    let ghost va = a@;
    let ghost vb = b@;
    a.append(&mut b);
    assert(asm_views(a@) =~= asm_views(va) + asm_views(vb));
    a
}

fn one(i: Asm) -> (r: Vec<Asm>)
    ensures
        asm_views(r@) == seq![i@],
{
    let r = vec![i];
    assert(asm_views(r@) =~= seq![i@]);
    r
}

fn op_exec(d: Dest, c: Comp) -> (r: Asm)
    ensures
        r@ == op(d, c),
{
    Asm::C(d, c, Jump::Null)
}

fn set_stack_top() -> (r: Vec<Asm>)
    ensures
        asm_views(r@) == set_stack_top_code(),
{
    let r = vec![Asm::At(Addr::Sp), op_exec(Dest::A, Comp::M)];
    assert(asm_views(r@) =~= set_stack_top_code());
    r
}

fn advance_stack() -> (r: Vec<Asm>)
    ensures
        asm_views(r@) == advance_stack_code(),
{
    let r = vec![Asm::At(Addr::Sp), op_exec(Dest::M, Comp::MPlusOne), op_exec(Dest::A, Comp::M)];
    assert(asm_views(r@) =~= advance_stack_code());
    r
}

fn backward_stack() -> (r: Vec<Asm>)
    ensures
        asm_views(r@) == backward_stack_code(),
{
    let r = vec![Asm::At(Addr::Sp), op_exec(Dest::M, Comp::MMinusOne), op_exec(Dest::A, Comp::M)];
    assert(asm_views(r@) =~= backward_stack_code());
    r
}

fn push_d() -> (r: Vec<Asm>)
    ensures
        asm_views(r@) == push_d_code(),
{
    join(join(set_stack_top(), one(op_exec(Dest::M, Comp::D))), advance_stack())
}

fn copy_chars(s: &Vec<char>) -> (r: Vec<char>)
    ensures
        r@ == s@,
{
    let mut r: Vec<char> = Vec::new();
    crate::hack::push_chars(&mut r, s);
    assert(r@ =~= s@);
    r
}

/// `base` followed by `lit` and the decimal text of `k`.
fn numbered(base: &Vec<char>, lit: &str, k: u64) -> (r: Vec<char>)
    ensures
        r@ == base@ + lit@ + dec(k as nat),
{
    let mut r = copy_chars(base);
    crate::hack::push_lit(&mut r, lit);
    push_dec(&mut r, k);
    r
}

fn relational_labels(c: &ArithmeticCommand, k: u64) -> (r: (Vec<char>, Vec<char>))
    requires
        is_relational(*c),
    ensures
        r.0@ == true_label(*c, k),
        r.1@ == end_label(*c, k),
{
    let mut name: Vec<char> = Vec::new();
    match c {
        ArithmeticCommand::Eq => crate::hack::push_lit(&mut name, "EQ"),
        ArithmeticCommand::Gt => crate::hack::push_lit(&mut name, "GT"),
        _ => crate::hack::push_lit(&mut name, "LT"),
    }
    assert(name@ =~= relational_name(*c));
    (numbered(&name, "_TRUE_", k), numbered(&name, "_END_", k))
}

fn compare(c: &ArithmeticCommand, k: u64) -> (r: Vec<Asm>)
    requires
        is_relational(*c),
    ensures
        asm_views(r@) == compare_code(*c, k),
{
    let (t, e) = relational_labels(c, k);
    let j = match c {
        ArithmeticCommand::Eq => Jump::JEQ,
        ArithmeticCommand::Gt => Jump::JGT,
        _ => Jump::JLT,
    };
    let r = vec![
        Asm::At(Addr::Name(copy_chars(&t))),
        Asm::C(Dest::Null, Comp::D, j),
        op_exec(Dest::D, Comp::Zero),
        Asm::At(Addr::Name(copy_chars(&e))),
        Asm::C(Dest::Null, Comp::Zero, Jump::JMP),
        Asm::Label(t),
        op_exec(Dest::D, Comp::NegOne),
        Asm::Label(e),
    ];
    assert(asm_views(r@) =~= compare_code(*c, k));
    r
}

fn operator(c: &ArithmeticCommand, k: u64) -> (r: Vec<Asm>)
    ensures
        asm_views(r@) == operator_code(*c, k),
{
    match c {
        ArithmeticCommand::Add => join(backward_stack(), one(op_exec(Dest::D, Comp::DPlusM))),
        ArithmeticCommand::Sub => join(backward_stack(), one(op_exec(Dest::D, Comp::MMinusD))),
        ArithmeticCommand::And => join(backward_stack(), one(op_exec(Dest::D, Comp::DAndM))),
        ArithmeticCommand::Or => join(backward_stack(), one(op_exec(Dest::D, Comp::DOrM))),
        ArithmeticCommand::Neg => one(op_exec(Dest::D, Comp::NegM)),
        ArithmeticCommand::Not => one(op_exec(Dest::D, Comp::NotM)),
        _ => join(
            join(join(backward_stack(), one(op_exec(Dest::D, Comp::MMinusD))), compare(c, k)),
            set_stack_top(),
        ),
    }
}

fn addressable_exec(s: Segment, i: u16) -> (r: bool)
    ensures
        r == addressable(s, i),
{
    match s {
        Segment::Constant => false,
        Segment::Static => i <= 240,
        Segment::Temp => i <= 7,
        Segment::Pointer => i <= 1,
        _ => true,
    }
}

fn push_cell(a: Addr) -> (r: Vec<Asm>)
    ensures
        asm_views(r@) == push_cell_code(a@),
{
    let ghost v = a@;
    let r = join(vec![Asm::At(a), op_exec(Dest::D, Comp::M)], push_d());
    assert(asm_views(r@) =~= push_cell_code(v));
    r
}

fn restore(a: Addr) -> (r: Vec<Asm>)
    ensures
        asm_views(r@) == restore_code(a@),
{
    let ghost v = a@;
    let r = vec![
        Asm::At(Addr::R(13)),
        op_exec(Dest::AM, Comp::MMinusOne),
        op_exec(Dest::D, Comp::M),
        Asm::At(a),
        op_exec(Dest::M, Comp::D),
    ];
    assert(asm_views(r@) =~= restore_code(v));
    r
}

/// Translates VM commands into Hack assembly, one command at a time.
pub struct CodeWriter {
    ident: Vec<char>,
    function_names: Vec<Vec<char>>,
    jmp_count: u64,
    code: Vec<Asm>,
}

impl CodeWriter {
    /// The generator's state, as `apply` speaks of it.
    pub closed spec fn state(&self) -> GenState {
        GenState {
            ident: self.ident@,
            names: crate::text::views(self.function_names@),
            count: self.jmp_count,
            code: asm_views(self.code@),
        }
    }

    /// A generator for the unit `ident`, with nothing emitted.
    pub fn new(ident: String) -> (r: CodeWriter)
        ensures
            r.state() == (GenState {
                ident: ident@,
                names: Seq::empty(),
                count: 0,
                code: Seq::empty(),
            }),
    {
        let w = CodeWriter {
            ident: crate::text::chars_of(ident.as_str()),
            function_names: Vec::new(),
            jmp_count: 0,
            code: Vec::new(),
        };
        assert(w.state().names =~= Seq::<Seq<char>>::empty());
        assert(w.state().code =~= Seq::<Ins>::empty());
        w
    }

    /// Starts a new unit `ident` in the same output; the label counter starts
    /// again from zero.
    pub fn set_ident(&mut self, ident: String)
        ensures
            final(self).state() == (GenState {
                ident: ident@,
                count: 0,
                ..old(self).state()
            }),
    {
        self.ident = crate::text::chars_of(ident.as_str());
        self.jmp_count = 0;
    }

    fn emit(&mut self, v: Vec<Asm>)
        ensures
            final(self).state() == emit(old(self).state(), asm_views(v@)),
    {
        let mut v = v;
        let ghost pre = self.code@;
        let ghost vv = v@;
        self.code.append(&mut v);
        assert(asm_views(self.code@) =~= asm_views(pre) + asm_views(vv));
    }

    /// The name that qualifies labels now.
    fn function_name(&self) -> (r: Vec<char>)
        ensures
            r@ == qualifier(self.state().ident, self.state().names),
    {
        let n = self.function_names.len();
        if n > 0 {
            copy_chars(&self.function_names[n - 1])
        } else {
            copy_chars(&self.ident)
        }
    }

    fn qualify(&self, label: &str) -> (r: Vec<char>)
        ensures
            r@ == qualified(self.state().ident, self.state().names, label@),
    {
        let mut r = self.function_name();
        r.push('.');
        crate::hack::push_lit(&mut r, label);
        assert(r@ =~= qualified(self.state().ident, self.state().names, label@));
        r
    }

    /// Emits the code that sets the stack pointer to 256.
    pub fn init(&mut self)
        ensures
            final(self).state() == emit(old(self).state(), init_code()),
    {
        let v = vec![
            Asm::At(Addr::Num(256)),
            op_exec(Dest::D, Comp::A),
            Asm::At(Addr::Sp),
            op_exec(Dest::M, Comp::D),
        ];
        assert(asm_views(v@) =~= init_code());
        self.emit(v);
    }

    /// Emits the closing loop `(<ident>.END)` that the program ends in.
    pub fn finalize(&mut self)
        ensures
            final(self).state() == emit(old(self).state(), finalize_code(old(self).state().ident)),
    {
        let mut name = copy_chars(&self.ident);
        crate::hack::push_lit(&mut name, ".END");
        let v = vec![
            Asm::Label(copy_chars(&name)),
            Asm::At(Addr::Name(name)),
            Asm::C(Dest::Null, Comp::Zero, Jump::JMP),
        ];
        assert(asm_views(v@) =~= finalize_code(self.state().ident));
        self.emit(v);
    }

    /// Emits an arithmetic or logical operator.
    pub fn write_arithmetic(&mut self, command: &ArithmeticCommand) -> (r: Result<(), GenError>)
        ensures
            applied(old(self).state(), final(self).state(), CommandV::Arithmetic(*command), r),
    {
        let k = self.jmp_count;
        let relational = match command {
            ArithmeticCommand::Eq | ArithmeticCommand::Gt | ArithmeticCommand::Lt => true,
            _ => false,
        };
        if relational && k == u64::MAX {
            return Err(GenError::LabelSpaceExhausted);
        }
        let code = join(
            join(
                join(join(backward_stack(), one(op_exec(Dest::D, Comp::M))), operator(command, k)),
                one(op_exec(Dest::M, Comp::D)),
            ),
            advance_stack(),
        );
        self.emit(code);
        if relational {
            self.jmp_count = k + 1;
        }
        Ok(())
    }

    /// Sets `A` to the address of `segment index`.
    fn set_segment_addr(&self, segment: Segment, index: u16) -> (r: Vec<Asm>)
        requires
            addressable(segment, index),
        ensures
            asm_views(r@) == segment_addr_code(self.state().ident, segment, index),
    {
        let r = match segment {
            Segment::Local => vec![
                Asm::At(Addr::Lcl),
                op_exec(Dest::D, Comp::M),
                Asm::At(Addr::Num(index)),
                op_exec(Dest::A, Comp::DPlusA),
            ],
            Segment::Argument => vec![
                Asm::At(Addr::Arg),
                op_exec(Dest::D, Comp::M),
                Asm::At(Addr::Num(index)),
                op_exec(Dest::A, Comp::DPlusA),
            ],
            Segment::This => vec![
                Asm::At(Addr::This),
                op_exec(Dest::D, Comp::M),
                Asm::At(Addr::Num(index)),
                op_exec(Dest::A, Comp::DPlusA),
            ],
            Segment::That => vec![
                Asm::At(Addr::That),
                op_exec(Dest::D, Comp::M),
                Asm::At(Addr::Num(index)),
                op_exec(Dest::A, Comp::DPlusA),
            ],
            Segment::Static => {
                let mut name = copy_chars(&self.ident);
                name.push('.');
                push_dec(&mut name, index as u64);
                assert(name@ =~= static_name(self.state().ident, index));
                vec![Asm::At(Addr::Name(name))]
            },
            Segment::Temp => vec![Asm::At(Addr::R(5 + index))],
            _ => {
                if index == 0 {
                    vec![Asm::At(Addr::This)]
                } else {
                    vec![Asm::At(Addr::That)]
                }
            },
        };
        assert(asm_views(r@) =~= segment_addr_code(self.state().ident, segment, index));
        r
    }

    /// Emits a `push` or a `pop`.
    pub fn write_push_pop(&mut self, command: &PushPopCommand) -> (r: Result<(), GenError>)
        ensures
            applied(old(self).state(), final(self).state(), CommandV::PushPop(*command), r),
    {
        let segment = command.segment;
        let index = command.index;
        match command.kind {
            PushPop::Pop => {
                if segment == Segment::Constant {
                    return Err(GenError::ConstantNotAddressable);
                }
                if !addressable_exec(segment, index) {
                    return Err(GenError::IndexOutOfRange);
                }
                let code = join(
                    join(
                        join(
                            self.set_segment_addr(segment, index),
                            vec![
                                op_exec(Dest::D, Comp::A),
                                Asm::At(Addr::R(13)),
                                op_exec(Dest::M, Comp::D),
                            ],
                        ),
                        backward_stack(),
                    ),
                    vec![
                        op_exec(Dest::D, Comp::M),
                        Asm::At(Addr::R(13)),
                        op_exec(Dest::A, Comp::M),
                        op_exec(Dest::M, Comp::D),
                    ],
                );
                proof {
                    let id = self.state().ident;
                    assert(asm_views(code@) =~= pop_code(id, segment, index));
                }
                self.emit(code);
            },
            PushPop::Push => {
                let load = if segment == Segment::Constant {
                    vec![Asm::At(Addr::Num(index)), op_exec(Dest::D, Comp::A)]
                } else {
                    if !addressable_exec(segment, index) {
                        return Err(GenError::IndexOutOfRange);
                    }
                    join(self.set_segment_addr(segment, index), one(op_exec(Dest::D, Comp::M)))
                };
                let code = join(load, push_d());
                proof {
                    let id = self.state().ident;
                    assert(asm_views(code@) =~= push_code(id, segment, index));
                }
                self.emit(code);
            },
        }
        Ok(())
    }

    /// Emits the declaration of `label`, qualified by the open function.
    pub fn write_label(&mut self, label: &str) -> (r: Result<(), GenError>)
        ensures
            applied(old(self).state(), final(self).state(), CommandV::Label(label@), r),
    {
        let q = self.qualify(label);
        self.emit(one(Asm::Label(q)));
        Ok(())
    }

    /// Emits a jump to `label`.
    pub fn write_goto(&mut self, label: &str) -> (r: Result<(), GenError>)
        ensures
            applied(old(self).state(), final(self).state(), CommandV::GoTo(label@), r),
    {
        let q = self.qualify(label);
        let v = vec![Asm::At(Addr::Name(q)), Asm::C(Dest::Null, Comp::Zero, Jump::JMP)];
        assert(asm_views(v@) =~= seq![
            at(AddrV::Name(qualified(self.state().ident, self.state().names, label@))),
            Ins::C(Dest::Null, Comp::Zero, Jump::JMP),
        ]);
        self.emit(v);
        Ok(())
    }

    /// Emits a jump to `label` taken when the popped value is not zero.
    pub fn write_if_goto(&mut self, label: &str) -> (r: Result<(), GenError>)
        ensures
            applied(old(self).state(), final(self).state(), CommandV::IfGoTo(label@), r),
    {
        let q = self.qualify(label);
        let v = join(
            backward_stack(),
            vec![
                op_exec(Dest::D, Comp::M),
                Asm::At(Addr::Name(q)),
                Asm::C(Dest::Null, Comp::D, Jump::JNE),
            ],
        );
        assert(asm_views(v@) =~= backward_stack_code() + seq![
            op(Dest::D, Comp::M),
            at(AddrV::Name(qualified(self.state().ident, self.state().names, label@))),
            Ins::C(Dest::Null, Comp::D, Jump::JNE),
        ]);
        self.emit(v);
        Ok(())
    }

    /// Emits the entry of function `name` with `n_locals` zeroed locals, and
    /// opens it for label qualification; a function still open is an error.
    pub fn write_function(&mut self, name: &str, n_locals: u16) -> (r: Result<(), GenError>)
        ensures
            applied(
                old(self).state(),
                final(self).state(),
                CommandV::Function { name: name@, n_locals },
                r,
            ),
    {
        if self.function_names.len() > 0 {
            return Err(GenError::UnclosedFunction);
        }
        let n = crate::text::chars_of(name);
        let mut code = one(Asm::Label(copy_chars(&n)));
        let mut i: u16 = 0;
        while i < n_locals
            invariant
                i <= n_locals,
                asm_views(code@) == seq![Ins::Label(name@)] + repeat(
                    set_stack_top_code() + seq![op(Dest::M, Comp::Zero)] + advance_stack_code(),
                    i as nat,
                ),
            decreases n_locals - i,
        {
            let zero = join(join(set_stack_top(), one(op_exec(Dest::M, Comp::Zero))), advance_stack());
            code = join(code, zero);
            i = i + 1;
        }
        self.emit(code);
        let ghost names = self.state().names;
        self.function_names.push(n);
        assert(self.state().names =~= names.push(name@));
        Ok(())
    }

    /// Emits a call of `name` with `n_args` arguments on the stack.
    pub fn write_call(&mut self, name: &str, n_args: u16) -> (r: Result<(), GenError>)
        ensures
            applied(
                old(self).state(),
                final(self).state(),
                CommandV::Call { name: name@, n_args },
                r,
            ),
    {
        let k = self.jmp_count;
        if k == u64::MAX {
            return Err(GenError::LabelSpaceExhausted);
        }
        let ret = numbered(&self.ident, "$ret.", k);
        let head = join(
            join(
                join(
                    join(
                        join(
                            join(
                                vec![Asm::At(Addr::Name(copy_chars(&ret))), op_exec(Dest::D, Comp::A)],
                                push_d(),
                            ),
                            push_cell(Addr::Lcl),
                        ),
                        push_cell(Addr::Arg),
                    ),
                    push_cell(Addr::This),
                ),
                push_cell(Addr::That),
            ),
            vec![
                Asm::At(Addr::Sp),
                op_exec(Dest::D, Comp::M),
                Asm::At(Addr::Num(5)),
                op_exec(Dest::D, Comp::DMinusA),
                Asm::At(Addr::Num(n_args)),
                op_exec(Dest::D, Comp::DMinusA),
                Asm::At(Addr::Arg),
                op_exec(Dest::M, Comp::D),
                Asm::At(Addr::Sp),
                op_exec(Dest::D, Comp::M),
                Asm::At(Addr::Lcl),
                op_exec(Dest::M, Comp::D),
                Asm::At(Addr::Name(crate::text::chars_of(name))),
                Asm::C(Dest::Null, Comp::Zero, Jump::JMP),
                Asm::Label(ret),
            ],
        );
        proof {
            let id = self.state().ident;
            assert(asm_views(head@) =~= call_code(name@, n_args, return_label(id, k)));
        }
        self.emit(head);
        self.jmp_count = k + 1;
        Ok(())
    }

    /// Emits the return from the open function, and closes it.
    pub fn write_return(&mut self) -> (r: Result<(), GenError>)
        ensures
            applied(old(self).state(), final(self).state(), CommandV::Return, r),
    {
        if self.function_names.len() == 0 {
            return Err(GenError::ReturnOutsideFunction);
        }
        let code = join(
            join(
                join(
                    join(
                        join(
                            join(
                                join(
                                    vec![
                                        Asm::At(Addr::Lcl),
                                        op_exec(Dest::D, Comp::M),
                                        Asm::At(Addr::R(13)),
                                        op_exec(Dest::M, Comp::D),
                                        Asm::At(Addr::Num(5)),
                                        op_exec(Dest::A, Comp::DMinusA),
                                        op_exec(Dest::D, Comp::M),
                                        Asm::At(Addr::R(14)),
                                        op_exec(Dest::M, Comp::D),
                                    ],
                                    backward_stack(),
                                ),
                                vec![
                                    op_exec(Dest::D, Comp::M),
                                    Asm::At(Addr::Arg),
                                    op_exec(Dest::A, Comp::M),
                                    op_exec(Dest::M, Comp::D),
                                    Asm::At(Addr::Arg),
                                    op_exec(Dest::D, Comp::MPlusOne),
                                    Asm::At(Addr::Sp),
                                    op_exec(Dest::M, Comp::D),
                                ],
                            ),
                            restore(Addr::That),
                        ),
                        restore(Addr::This),
                    ),
                    restore(Addr::Arg),
                ),
                restore(Addr::Lcl),
            ),
            vec![Asm::At(Addr::R(14)), op_exec(Dest::A, Comp::M), Asm::C(Dest::Null, Comp::Zero, Jump::JMP)],
        );
        assert(asm_views(code@) =~= return_code());
        self.emit(code);
        let ghost names = self.state().names;
        self.function_names.pop();
        assert(self.state().names =~= names.drop_last());
        Ok(())
    }

    /// The number of functions open.
    pub fn open_functions(&self) -> (r: usize)
        ensures
            r == self.state().names.len(),
    {
        self.function_names.len()
    }

    /// The text of everything emitted so far, one instruction per line.
    pub fn output(&self) -> (r: String)
        ensures
            r@ == code_text(self.state().code),
    {
        let mut out: Vec<char> = Vec::new();
        render_code(&self.code, &mut out);
        assert(out@ =~= code_text(self.state().code));
        string_of(&out)
    }
}

} // verus!

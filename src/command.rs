//! The commands of the VM language and the grammar that reads one source line
//! into a command.
use vstd::prelude::*;
use crate::text::{
    chars_of, contains_comment_marker, has_comment_marker, is_lit, parse_u16, string_of,
    tokenize, tokens, u16_of, views,
};

verus! {

/// One of the eight memory segments a `push` or `pop` names.
#[derive(Debug, Clone, Copy, PartialEq, Eq, Structural)]
pub enum Segment {
    Argument,
    Local,
    Static,
    Constant,
    This,
    That,
    Pointer,
    Temp,
}

#[derive(Debug, Clone, Copy, PartialEq, Eq, Structural)]
pub enum PushPop {
    Push,
    Pop,
}

/// The nine arithmetic and logical operators.
#[derive(Debug, Clone, Copy, PartialEq, Eq, Structural)]
pub enum ArithmeticCommand {
    Add,
    Sub,
    Neg,
    Eq,
    Gt,
    Lt,
    And,
    Or,
    Not,
}

#[derive(Debug, Clone, Copy, PartialEq, Eq, Structural)]
pub struct PushPopCommand {
    pub kind: PushPop,
    pub segment: Segment,
    pub index: u16,
}

/// One instruction of the VM language.
#[derive(Debug, Clone, PartialEq, Eq)]
pub enum Command {
    PushPop(PushPopCommand),
    Arithmetic(ArithmeticCommand),
    Label(String),
    GoTo(String),
    IfGoTo(String),
    Function { name: String, n_locals: u16 },
    Call { name: String, n_args: u16 },
    Return,
}

/// A command with its names seen as character sequences.
pub enum CommandV {
    PushPop(PushPopCommand),
    Arithmetic(ArithmeticCommand),
    Label(Seq<char>),
    GoTo(Seq<char>),
    IfGoTo(Seq<char>),
    Function { name: Seq<char>, n_locals: u16 },
    Call { name: Seq<char>, n_args: u16 },
    Return,
}

impl View for Command {
    type V = CommandV;

    open spec fn view(&self) -> CommandV {
        match self {
            Command::PushPop(p) => CommandV::PushPop(*p),
            Command::Arithmetic(a) => CommandV::Arithmetic(*a),
            Command::Label(s) => CommandV::Label(s@),
            Command::GoTo(s) => CommandV::GoTo(s@),
            Command::IfGoTo(s) => CommandV::IfGoTo(s@),
            Command::Function { name, n_locals } => CommandV::Function {
                name: name@,
                n_locals: *n_locals,
            },
            Command::Call { name, n_args } => CommandV::Call { name: name@, n_args: *n_args },
            Command::Return => CommandV::Return,
        }
    }
}

/// A line read so far as its tokens: nothing may follow token `n` but a
/// token that holds the comment marker.
pub open spec fn ends_after(t: Seq<Seq<char>>, n: int) -> bool {
    t.len() <= n || has_comment_marker(t[n])
}

pub open spec fn segment_of(w: Seq<char>) -> Option<Segment> {
    if w == "argument"@ {
        Some(Segment::Argument)
    } else if w == "local"@ {
        Some(Segment::Local)
    } else if w == "static"@ {
        Some(Segment::Static)
    } else if w == "constant"@ {
        Some(Segment::Constant)
    } else if w == "this"@ {
        Some(Segment::This)
    } else if w == "that"@ {
        Some(Segment::That)
    } else if w == "pointer"@ {
        Some(Segment::Pointer)
    } else if w == "temp"@ {
        Some(Segment::Temp)
    } else {
        None
    }
}

pub open spec fn push_pop_kind_of(w: Seq<char>) -> Option<PushPop> {
    if w == "push"@ {
        Some(PushPop::Push)
    } else if w == "pop"@ {
        Some(PushPop::Pop)
    } else {
        None
    }
}

pub open spec fn operator_of(w: Seq<char>) -> Option<ArithmeticCommand> {
    if w == "add"@ {
        Some(ArithmeticCommand::Add)
    } else if w == "sub"@ {
        Some(ArithmeticCommand::Sub)
    } else if w == "neg"@ {
        Some(ArithmeticCommand::Neg)
    } else if w == "eq"@ {
        Some(ArithmeticCommand::Eq)
    } else if w == "gt"@ {
        Some(ArithmeticCommand::Gt)
    } else if w == "lt"@ {
        Some(ArithmeticCommand::Lt)
    } else if w == "and"@ {
        Some(ArithmeticCommand::And)
    } else if w == "or"@ {
        Some(ArithmeticCommand::Or)
    } else if w == "not"@ {
        Some(ArithmeticCommand::Not)
    } else {
        None
    }
}

/// `push|pop <segment> <index>`.
pub open spec fn push_pop_of(t: Seq<Seq<char>>) -> Option<PushPopCommand> {
    if t.len() >= 3 && push_pop_kind_of(t[0]) is Some && segment_of(t[1]) is Some && u16_of(
        t[2],
    ) is Some && ends_after(t, 3) {
        Some(
            PushPopCommand {
                kind: push_pop_kind_of(t[0])->0,
                segment: segment_of(t[1])->0,
                index: u16_of(t[2])->0,
            },
        )
    } else {
        None
    }
}

/// A bare operator mnemonic.
pub open spec fn arithmetic_of(t: Seq<Seq<char>>) -> Option<ArithmeticCommand> {
    if t.len() >= 1 && ends_after(t, 1) {
        operator_of(t[0])
    } else {
        None
    }
}

/// `label|goto|if-goto <name>`.
pub open spec fn jump_of(t: Seq<Seq<char>>) -> Option<CommandV> {
    if t.len() >= 2 && ends_after(t, 2) {
        if t[0] == "label"@ {
            Some(CommandV::Label(t[1]))
        } else if t[0] == "goto"@ {
            Some(CommandV::GoTo(t[1]))
        } else if t[0] == "if-goto"@ {
            Some(CommandV::IfGoTo(t[1]))
        } else {
            None
        }
    } else {
        None
    }
}

/// `function <name> <n>` or `call <name> <n>`, after the verb `verb`.
pub open spec fn named_count_of(t: Seq<Seq<char>>, verb: Seq<char>) -> Option<(Seq<char>, u16)> {
    if t.len() >= 3 && t[0] == verb && u16_of(t[2]) is Some && ends_after(t, 3) {
        Some((t[1], u16_of(t[2])->0))
    } else {
        None
    }
}

pub open spec fn return_of(t: Seq<Seq<char>>) -> bool {
    t.len() >= 1 && t[0] == "return"@ && ends_after(t, 1)
}

/// The command that a line of tokens `t` reads as: the grammars are tried in
/// a fixed order and the first that matches wins.
pub open spec fn command_of(t: Seq<Seq<char>>) -> Option<CommandV> {
    if push_pop_of(t) is Some {
        Some(CommandV::PushPop(push_pop_of(t)->0))
    } else if arithmetic_of(t) is Some {
        Some(CommandV::Arithmetic(arithmetic_of(t)->0))
    } else if named_count_of(t, "function"@) is Some {
        let (name, n) = named_count_of(t, "function"@)->0;
        Some(CommandV::Function { name, n_locals: n })
    } else if named_count_of(t, "call"@) is Some {
        let (name, n) = named_count_of(t, "call"@)->0;
        Some(CommandV::Call { name, n_args: n })
    } else if return_of(t) {
        Some(CommandV::Return)
    } else {
        jump_of(t)
    }
}

/// The command that the source line `line` reads as.
pub open spec fn command_of_line(line: Seq<char>) -> Option<CommandV> {
    command_of(tokens(line))
}

pub open spec fn opt_view(r: Option<Command>) -> Option<CommandV> {
    match r {
        Some(c) => Some(c@),
        None => None,
    }
}

fn ends_after_exec(t: &Vec<Vec<char>>, n: usize) -> (r: bool)
    ensures
        r == ends_after(views(t@), n as int),
{
    if t.len() <= n {
        true
    } else {
        contains_comment_marker(&t[n])
    }
}

impl Segment {
    pub(crate) fn from_token(w: &Vec<char>) -> (r: Option<Segment>)
        ensures
            r == segment_of(w@),
    {
        if is_lit(w, "argument") {
            Some(Segment::Argument)
        } else if is_lit(w, "local") {
            Some(Segment::Local)
        } else if is_lit(w, "static") {
            Some(Segment::Static)
        } else if is_lit(w, "constant") {
            Some(Segment::Constant)
        } else if is_lit(w, "this") {
            Some(Segment::This)
        } else if is_lit(w, "that") {
            Some(Segment::That)
        } else if is_lit(w, "pointer") {
            Some(Segment::Pointer)
        } else if is_lit(w, "temp") {
            Some(Segment::Temp)
        } else {
            None
        }
    }
}

impl PushPop {
    pub(crate) fn from_token(w: &Vec<char>) -> (r: Option<PushPop>)
        ensures
            r == push_pop_kind_of(w@),
    {
        if is_lit(w, "push") {
            Some(PushPop::Push)
        } else if is_lit(w, "pop") {
            Some(PushPop::Pop)
        } else {
            None
        }
    }
}

impl ArithmeticCommand {
    pub(crate) fn from_token(w: &Vec<char>) -> (r: Option<ArithmeticCommand>)
        ensures
            r == operator_of(w@),
    {
        if is_lit(w, "add") {
            Some(ArithmeticCommand::Add)
        } else if is_lit(w, "sub") {
            Some(ArithmeticCommand::Sub)
        } else if is_lit(w, "neg") {
            Some(ArithmeticCommand::Neg)
        } else if is_lit(w, "eq") {
            Some(ArithmeticCommand::Eq)
        } else if is_lit(w, "gt") {
            Some(ArithmeticCommand::Gt)
        } else if is_lit(w, "lt") {
            Some(ArithmeticCommand::Lt)
        } else if is_lit(w, "and") {
            Some(ArithmeticCommand::And)
        } else if is_lit(w, "or") {
            Some(ArithmeticCommand::Or)
        } else if is_lit(w, "not") {
            Some(ArithmeticCommand::Not)
        } else {
            None
        }
    }

    pub(crate) fn from_tokens(t: &Vec<Vec<char>>) -> (r: Option<ArithmeticCommand>)
        ensures
            r == arithmetic_of(views(t@)),
    {
        if t.len() >= 1 && ends_after_exec(t, 1) {
            ArithmeticCommand::from_token(&t[0])
        } else {
            None
        }
    }

    /// Reads a line holding a bare operator mnemonic.
    pub fn parse(line: &str) -> (r: Option<ArithmeticCommand>)
        ensures
            r == arithmetic_of(tokens(line@)),
    {
        ArithmeticCommand::from_tokens(&tokenize(&chars_of(line)))
    }
}

impl PushPopCommand {
    pub(crate) fn from_tokens(t: &Vec<Vec<char>>) -> (r: Option<PushPopCommand>)
        ensures
            r == push_pop_of(views(t@)),
    {
        if t.len() < 3 {
            return None;
        }
        let kind = match PushPop::from_token(&t[0]) {
            Some(k) => k,
            None => return None,
        };
        let segment = match Segment::from_token(&t[1]) {
            Some(s) => s,
            None => return None,
        };
        let index = match parse_u16(&t[2]) {
            Some(i) => i,
            None => return None,
        };
        if !ends_after_exec(t, 3) {
            return None;
        }
        Some(PushPopCommand { kind, segment, index })
    }

    /// Reads a line `push|pop <segment> <index>`.
    pub fn parse(line: &str) -> (r: Option<PushPopCommand>)
        ensures
            r == push_pop_of(tokens(line@)),
    {
        PushPopCommand::from_tokens(&tokenize(&chars_of(line)))
    }
}

fn named_count(t: &Vec<Vec<char>>, verb: &str) -> (r: Option<(String, u16)>)
    ensures
        match r {
            Some((name, n)) => named_count_of(views(t@), verb@) == Some((name@, n)),
            None => named_count_of(views(t@), verb@) is None,
        },
{
    if t.len() < 3 || !is_lit(&t[0], verb) {
        return None;
    }
    let n = match parse_u16(&t[2]) {
        Some(n) => n,
        None => return None,
    };
    if !ends_after_exec(t, 3) {
        return None;
    }
    Some((string_of(&t[1]), n))
}

fn jump_from_tokens(t: &Vec<Vec<char>>) -> (r: Option<Command>)
    ensures
        opt_view(r) == jump_of(views(t@)),
{
    if t.len() < 2 || !ends_after_exec(t, 2) {
        return None;
    }
    let name = string_of(&t[1]);
    if is_lit(&t[0], "label") {
        Some(Command::Label(name))
    } else if is_lit(&t[0], "goto") {
        Some(Command::GoTo(name))
    } else if is_lit(&t[0], "if-goto") {
        Some(Command::IfGoTo(name))
    } else {
        None
    }
}

impl Command {
    pub(crate) fn from_tokens(t: &Vec<Vec<char>>) -> (r: Option<Command>)
        ensures
            opt_view(r) == command_of(views(t@)),
    {
        if let Some(p) = PushPopCommand::from_tokens(t) {
            return Some(Command::PushPop(p));
        }
        if let Some(a) = ArithmeticCommand::from_tokens(t) {
            return Some(Command::Arithmetic(a));
        }
        if let Some((name, n_locals)) = named_count(t, "function") {
            return Some(Command::Function { name, n_locals });
        }
        if let Some((name, n_args)) = named_count(t, "call") {
            return Some(Command::Call { name, n_args });
        }
        if t.len() >= 1 && is_lit(&t[0], "return") && ends_after_exec(t, 1) {
            return Some(Command::Return);
        }
        jump_from_tokens(t)
    }

    /// Reads one source line into the command it holds, or `None` where the
    /// line matches none of the grammars.
    pub fn parse(line: &str) -> (r: Option<Command>)
        ensures
            opt_view(r) == command_of_line(line@),
    {
        Command::from_tokens(&tokenize(&chars_of(line)))
    }
}

/// The one word that `s` holds between whitespace, if it holds exactly one.
pub open spec fn single_word(s: Seq<char>) -> Option<Seq<char>> {
    if tokens(s).len() == 1 {
        Some(tokens(s)[0])
    } else {
        None
    }
}

impl Segment {
    /// Reads a segment name; surrounding whitespace is ignored.
    pub fn parse(word: &str) -> (r: Option<Segment>)
        ensures
            r == match single_word(word@) {
                Some(w) => segment_of(w),
                None => None,
            },
    {
        let t = tokenize(&chars_of(word));
        if t.len() == 1 {
            Segment::from_token(&t[0])
        } else {
            None
        }
    }
}

impl PushPop {
    /// Reads `push` or `pop`; surrounding whitespace is ignored.
    pub fn parse(word: &str) -> (r: Option<PushPop>)
        ensures
            r == match single_word(word@) {
                Some(w) => push_pop_kind_of(w),
                None => None,
            },
    {
        let t = tokenize(&chars_of(word));
        if t.len() == 1 {
            PushPop::from_token(&t[0])
        } else {
            None
        }
    }
}

/// A type that a source line can be read into.
pub trait Parsable: Sized {
    type Output;

    /// Whether `r` is what the line `line` reads as.
    spec fn reads_as(line: Seq<char>, r: Option<Self::Output>) -> bool;

    fn parse(line: &str) -> (r: Option<Self::Output>)
        ensures
            Self::reads_as(line@, r),
    ;
}

impl Parsable for Command {
    type Output = Command;

    open spec fn reads_as(line: Seq<char>, r: Option<Command>) -> bool {
        opt_view(r) == command_of_line(line)
    }

    fn parse(line: &str) -> (r: Option<Command>) {
        Command::from_tokens(&tokenize(&chars_of(line)))
    }
}

impl Parsable for ArithmeticCommand {
    type Output = ArithmeticCommand;

    open spec fn reads_as(line: Seq<char>, r: Option<ArithmeticCommand>) -> bool {
        r == arithmetic_of(tokens(line))
    }

    fn parse(line: &str) -> (r: Option<ArithmeticCommand>) {
        ArithmeticCommand::from_tokens(&tokenize(&chars_of(line)))
    }
}

impl Parsable for PushPopCommand {
    type Output = PushPopCommand;

    open spec fn reads_as(line: Seq<char>, r: Option<PushPopCommand>) -> bool {
        r == push_pop_of(tokens(line))
    }

    fn parse(line: &str) -> (r: Option<PushPopCommand>) {
        PushPopCommand::from_tokens(&tokenize(&chars_of(line)))
    }
}

impl Parsable for Segment {
    type Output = Segment;

    open spec fn reads_as(line: Seq<char>, r: Option<Segment>) -> bool {
        r == match single_word(line) {
            Some(w) => segment_of(w),
            None => None,
        }
    }

    fn parse(line: &str) -> (r: Option<Segment>) {
        Segment::parse(line)
    }
}

impl Parsable for PushPop {
    type Output = PushPop;

    open spec fn reads_as(line: Seq<char>, r: Option<PushPop>) -> bool {
        r == match single_word(line) {
            Some(w) => push_pop_kind_of(w),
            None => None,
        }
    }

    fn parse(line: &str) -> (r: Option<PushPop>) {
        PushPop::parse(line)
    }
}

} // verus!

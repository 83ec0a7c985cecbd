//! The driver: feeds every command of a unit from the parser to the code
//! generator, between the start-up code and the closing loop.
use vstd::prelude::*;
use crate::command::{command_of, opt_view, Command, CommandV};
use crate::parser::{is_instruction_line, Parser};
use crate::hack::code_text;
use crate::text::tokens;
use crate::writer::{apply, emit, finalize_code, init_code, CodeWriter, GenError, GenState};

verus! {

/// What the instruction lines of `lines` read as, in order; `None` for a
/// line that matches no grammar.
pub open spec fn instruction_commands(lines: Seq<Seq<char>>) -> Seq<Option<CommandV>>
    decreases lines.len(),
{
    if lines.len() == 0 {
        Seq::empty()
    } else {
        let rest = instruction_commands(lines.drop_last());
        if is_instruction_line(lines.last()) {
            rest.push(command_of(tokens(lines.last())))
        } else {
            rest
        }
    }
}

/// The generator's state after `cmds` in order, lines that read as no
/// command skipped; the first error stops it.
pub open spec fn apply_all(st: GenState, cmds: Seq<Option<CommandV>>) -> Result<GenState, GenError>
    decreases cmds.len(),
{
    if cmds.len() == 0 {
        Ok(st)
    } else {
        match apply_all(st, cmds.drop_last()) {
            Ok(s) => match cmds.last() {
                Some(c) => apply(s, c),
                None => Ok(s),
            },
            Err(e) => Err(e),
        }
    }
}

/// The generator's state after `cmds` in order, up to the first error: the
/// state that the failing command found.
pub open spec fn last_good(st: GenState, cmds: Seq<Option<CommandV>>) -> GenState
    decreases cmds.len(),
{
    if cmds.len() == 0 {
        st
    } else {
        match apply_all(st, cmds.drop_last()) {
            Ok(s) => match cmds.last() {
                Some(c) => match apply(s, c) {
                    Ok(s2) => s2,
                    Err(_) => s,
                },
                None => s,
            },
            Err(_) => last_good(st, cmds.drop_last()),
        }
    }
}

/// What translating the lines `lines` does, starting from `st`: the closing
/// loop comes only after every command went through and every function was
/// closed.
pub open spec fn translation(st: GenState, lines: Seq<Seq<char>>) -> Result<GenState, GenError> {
    match apply_all(emit(st, init_code()), instruction_commands(lines)) {
        Ok(s) => if s.names.len() > 0 {
            Err(GenError::UnclosedFunction)
        } else {
            Ok(emit(s, finalize_code(s.ident)))
        },
        Err(e) => Err(e),
    }
}

proof fn lemma_skip_lines(lines: Seq<Seq<char>>, a: int, b: int)
    requires
        0 <= a <= b <= lines.len(),
        forall|k: int| a <= k < b ==> !is_instruction_line(#[trigger] lines[k]),
    ensures
        instruction_commands(lines.subrange(0, b)) == instruction_commands(lines.subrange(0, a)),
    decreases b - a,
{
    if b > a {
        lemma_skip_lines(lines, a, b - 1);
        assert(lines.subrange(0, b).drop_last() =~= lines.subrange(0, b - 1));
    }
}

proof fn lemma_last_good_sticks(st: GenState, a: Seq<Option<CommandV>>, b: Seq<Option<CommandV>>)
    requires
        apply_all(st, a) is Err,
    ensures
        last_good(st, a + b) == last_good(st, a),
    decreases b.len(),
{
    if b.len() == 0 {
        assert(a + b =~= a);
    } else {
        lemma_last_good_sticks(st, a, b.drop_last());
        lemma_error_sticks(st, a, b.drop_last(), apply_all(st, a)->Err_0);
        assert((a + b).drop_last() =~= a + b.drop_last());
    }
}

proof fn lemma_last_good_of_ok(st: GenState, cmds: Seq<Option<CommandV>>)
    requires
        apply_all(st, cmds) is Ok,
    ensures
        last_good(st, cmds) == apply_all(st, cmds)->Ok_0,
{
}

proof fn lemma_error_sticks(st: GenState, a: Seq<Option<CommandV>>, b: Seq<Option<CommandV>>, e: GenError)
    requires
        apply_all(st, a) == Err::<GenState, GenError>(e),
    ensures
        apply_all(st, a + b) == Err::<GenState, GenError>(e),
    decreases b.len(),
{
    if b.len() == 0 {
        assert(a + b =~= a);
    } else {
        lemma_error_sticks(st, a, b.drop_last(), e);
        assert((a + b).drop_last() =~= a + b.drop_last());
    }
}

/// Translates one VM source unit to Hack assembly.
pub struct VmTranslator {
    parser: Parser,
    writer: CodeWriter,
}

impl VmTranslator {
    pub closed spec fn parser(&self) -> Parser {
        self.parser
    }

    pub closed spec fn writer(&self) -> CodeWriter {
        self.writer
    }

    pub fn new(parser: Parser, writer: CodeWriter) -> (r: VmTranslator)
        ensures
            r.parser() == parser,
            r.writer() == writer,
    {
        VmTranslator { parser, writer }
    }

    /// The assembly text emitted so far.
    pub fn output(&self) -> (r: String)
        ensures
            r@ == code_text(self.writer().state().code),
    {
        self.writer.output()
    }

    fn write_command(&mut self, command: &Command) -> (r: Result<(), GenError>)
        ensures
            final(self).parser() == old(self).parser(),
            match r {
                Ok(()) => apply(old(self).writer().state(), command@) == Ok::<GenState, GenError>(
                    final(self).writer().state(),
                ),
                Err(e) => apply(old(self).writer().state(), command@) == Err::<GenState, GenError>(e)
                    && final(self).writer().state() == old(self).writer().state(),
            },
    {
        match command {
            Command::PushPop(p) => self.writer.write_push_pop(p),
            Command::Arithmetic(a) => self.writer.write_arithmetic(a),
            Command::Label(l) => self.writer.write_label(l.as_str()),
            Command::GoTo(l) => self.writer.write_goto(l.as_str()),
            Command::IfGoTo(l) => self.writer.write_if_goto(l.as_str()),
            Command::Function { name, n_locals } => self.writer.write_function(name.as_str(), *n_locals),
            Command::Call { name, n_args } => self.writer.write_call(name.as_str(), *n_args),
            Command::Return => self.writer.write_return(),
        }
    }

    /// Translates the lines not yet read: start-up code, each command in
    /// order, then the closing loop. The first fatal error stops it, and the
    /// output then ends with the code of the commands before it, without the
    /// closing loop.
    pub fn translate(&mut self) -> (r: Result<(), GenError>)
        requires
            old(self).parser().wf(),
        ensures
            ({
                let lines = old(self).parser().lines();
                let rest = lines.subrange(old(self).parser().cursor(), lines.len() as int);
                match translation(old(self).writer().state(), rest) {
                    Ok(s) => r is Ok && final(self).writer().state() == s,
                    Err(e) => r == Err::<(), GenError>(e) && final(self).writer().state()
                        == last_good(
                        emit(old(self).writer().state(), init_code()),
                        instruction_commands(rest),
                    ),
                }
            }),
    {
        let ghost lines = self.parser.lines();
        let ghost c0 = self.parser.cursor();
        proof {
            self.parser.lemma_cursor_in_range();
        }
        self.writer.init();
        let ghost s0 = self.writer.state();
        assert(lines.subrange(c0, c0) =~= Seq::<Seq<char>>::empty());
        while self.parser.has_more_lines()
            invariant
                self.parser.wf(),
                self.parser.lines() == lines,
                0 <= c0 <= self.parser.cursor() <= lines.len(),
                s0 == emit(old(self).writer().state(), init_code()),
                lines == old(self).parser().lines(),
                c0 == old(self).parser().cursor(),
                apply_all(s0, instruction_commands(lines.subrange(c0, self.parser.cursor())))
                    == Ok::<GenState, GenError>(self.writer.state()),
            decreases lines.len() - self.parser.cursor(),
        {
            let ghost cur = self.parser.cursor();
            let ghost done = lines.subrange(c0, cur);
            let command = self.parser.advance();
            let ghost j = self.parser.cursor() - 1;
            proof {
                self.parser.lemma_cursor_in_range();
                assert(cur <= j < lines.len());
                let sub = lines.subrange(c0, j + 1);
                assert forall|k: int| cur - c0 <= k < j - c0 implies !is_instruction_line(
                    #[trigger] sub[k],
                ) by {
                    assert(sub[k] == lines[c0 + k]);
                }
                lemma_skip_lines(sub, cur - c0, j - c0);
                assert(sub.subrange(0, j - c0) =~= lines.subrange(c0, j));
                assert(sub.subrange(0, cur - c0) =~= done);
                assert(sub.subrange(0, j + 1 - c0) =~= sub);
                assert(sub.drop_last() =~= lines.subrange(c0, j));
                assert(sub.last() == lines[j]);
                assert(instruction_commands(sub) == instruction_commands(done).push(
                    opt_view(command),
                ));
                assert(lines.subrange(c0, self.parser.cursor()) == sub);
                assert(instruction_commands(sub).drop_last() =~= instruction_commands(done));
            }
            match command {
                Some(c) => {
                    let res = self.write_command(&c);
                    match res {
                        Ok(()) => {},
                        Err(e) => {
                            proof {
                                let all = lines.subrange(c0, lines.len() as int);
                                let mid = instruction_commands(lines.subrange(c0, j + 1));
                                assert(apply_all(s0, mid) == Err::<GenState, GenError>(e));
                                lemma_concat_lines(lines, c0, j + 1);
                                lemma_error_sticks(
                                    s0,
                                    mid,
                                    instruction_commands(lines.subrange(j + 1, lines.len() as int)),
                                    e,
                                );
                                lemma_last_good_sticks(
                                    s0,
                                    mid,
                                    instruction_commands(lines.subrange(j + 1, lines.len() as int)),
                                );
                                assert(mid.drop_last() =~= instruction_commands(done));
                            }
                            return Err(e);
                        },
                    }
                },
                None => {},
            }
        }
        proof {
            self.parser.lemma_cursor_in_range();
            let cur = self.parser.cursor();
            let sub = lines.subrange(c0, lines.len() as int);
            assert forall|k: int| cur - c0 <= k < lines.len() - c0 implies !is_instruction_line(
                #[trigger] sub[k],
            ) by {
                assert(sub[k] == lines[c0 + k]);
            }
            lemma_skip_lines(sub, cur - c0, lines.len() - c0);
            assert(sub.subrange(0, lines.len() - c0) =~= sub);
            assert(sub.subrange(0, cur - c0) =~= lines.subrange(c0, cur));
        }
        proof {
            let all = instruction_commands(lines.subrange(c0, lines.len() as int));
            lemma_last_good_of_ok(s0, all);
        }
        if self.writer.open_functions() > 0 {
            return Err(GenError::UnclosedFunction);
        }
        self.writer.finalize();
        Ok(())
    }
}

proof fn lemma_concat_lines(lines: Seq<Seq<char>>, a: int, b: int)
    requires
        0 <= a <= b <= lines.len(),
    ensures
        instruction_commands(lines.subrange(a, lines.len() as int)) == instruction_commands(
            lines.subrange(a, b),
        ) + instruction_commands(lines.subrange(b, lines.len() as int)),
{
    lemma_commands_append(lines.subrange(a, b), lines.subrange(b, lines.len() as int));
    assert(lines.subrange(a, b) + lines.subrange(b, lines.len() as int) =~= lines.subrange(
        a,
        lines.len() as int,
    ));
}

proof fn lemma_commands_append(x: Seq<Seq<char>>, y: Seq<Seq<char>>)
    ensures
        instruction_commands(x + y) == instruction_commands(x) + instruction_commands(y),
    decreases y.len(),
{
    if y.len() == 0 {
        assert(x + y =~= x);
        assert(instruction_commands(x) + instruction_commands(y) =~= instruction_commands(x));
    } else {
        lemma_commands_append(x, y.drop_last());
        assert((x + y).drop_last() =~= x + y.drop_last());
        assert((x + y).last() == y.last());
        let cx = instruction_commands(x);
        let cy = instruction_commands(y.drop_last());
        if is_instruction_line(y.last()) {
            assert((cx + cy).push(command_of(tokens(y.last()))) =~= cx + cy.push(
                command_of(tokens(y.last())),
            ));
        }
    }
}

} // verus!

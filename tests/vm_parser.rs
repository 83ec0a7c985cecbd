use hack_vm::command::{ArithmeticCommand, Command, Parsable, PushPop, PushPopCommand, Segment};
use hack_vm::parser::Parser;

#[test]
fn test_parse_push_pop_command() {
    let command = PushPopCommand::parse("push local 2");
    assert!(command.is_some());
    let command = command.unwrap();
    assert_eq!(command.kind, PushPop::Push);
    assert_eq!(command.segment, Segment::Local);
    assert_eq!(command.index, 2);
}

#[test]
fn test_parse_arithmetic_command() {
    let command = ArithmeticCommand::parse("add");
    assert!(command.is_some());
    assert_eq!(command.unwrap(), ArithmeticCommand::Add);
}

#[test]
fn test_parse_invalid_command() {
    let command = Command::parse("invalid command");
    assert!(command.is_none());
}

#[test]
fn test_parse_all_arithmetic_commands() {
    let cmds = [
        ("add", ArithmeticCommand::Add),
        ("sub", ArithmeticCommand::Sub),
        ("neg", ArithmeticCommand::Neg),
        ("eq", ArithmeticCommand::Eq),
        ("gt", ArithmeticCommand::Gt),
        ("lt", ArithmeticCommand::Lt),
        ("and", ArithmeticCommand::And),
        ("or", ArithmeticCommand::Or),
        ("not", ArithmeticCommand::Not),
    ];
    for (text, expected) in cmds.iter() {
        let parsed = ArithmeticCommand::parse(text);
        assert_eq!(parsed, Some(expected.clone()));
    }
}

#[test]
fn test_parse_push_pop_all_segments() {
    let segments = [
        ("argument", Segment::Argument),
        ("local", Segment::Local),
        ("static", Segment::Static),
        ("constant", Segment::Constant),
        ("this", Segment::This),
        ("that", Segment::That),
        ("pointer", Segment::Pointer),
        ("temp", Segment::Temp),
    ];
    for (seg_str, seg_enum) in segments.iter() {
        let push = format!("push {} 7", seg_str);
        let pop = format!("pop {} 3", seg_str);
        let push_cmd = PushPopCommand::parse(&push).unwrap();
        assert_eq!(push_cmd.kind, PushPop::Push);
        assert_eq!(push_cmd.segment, *seg_enum);
        assert_eq!(push_cmd.index, 7);

        let pop_cmd = PushPopCommand::parse(&pop).unwrap();
        assert_eq!(pop_cmd.kind, PushPop::Pop);
        assert_eq!(pop_cmd.segment, *seg_enum);
        assert_eq!(pop_cmd.index, 3);
    }
}

#[test]
fn test_parse_push_pop_invalid() {
    // Invalid kind
    assert!(PushPopCommand::parse("pussh local 2").is_none());
    // Invalid segment
    assert!(PushPopCommand::parse("push foo 2").is_none());
    // Invalid index
    assert!(PushPopCommand::parse("push local x").is_none());
    // Extra argument
    assert!(PushPopCommand::parse("push local 2 extra").is_none());
    // Missing argument
    assert!(PushPopCommand::parse("push local").is_none());
}

#[test]
fn test_command_parse_push_pop_and_arithmetic() {
    let c = Command::parse("push argument 5");
    match c {
        Some(Command::PushPop(cmd)) => {
            assert_eq!(cmd.kind, PushPop::Push);
            assert_eq!(cmd.segment, Segment::Argument);
            assert_eq!(cmd.index, 5);
        }
        _ => panic!("Expected PushPop command"),
    }

    let c = Command::parse("add");
    match c {
        Some(Command::Arithmetic(ArithmeticCommand::Add)) => {}
        _ => panic!("Expected Arithmetic Add command"),
    }
}

#[test]
fn trailing_comment_is_not_an_extra_token() {
    let c = PushPopCommand::parse("push local 2 // keep it").unwrap();
    assert_eq!(c.index, 2);
    assert_eq!(ArithmeticCommand::parse("add // sum"), Some(ArithmeticCommand::Add));
    assert!(ArithmeticCommand::parse("add extra").is_none());
    assert!(Command::parse("return").is_some());
    assert!(Command::parse("return now").is_none());
}

#[test]
fn control_flow_and_calls_parse() {
    assert_eq!(Command::parse("label LOOP"), Some(Command::Label("LOOP".to_string())));
    assert_eq!(Command::parse("goto END"), Some(Command::GoTo("END".to_string())));
    assert_eq!(Command::parse("if-goto L1"), Some(Command::IfGoTo("L1".to_string())));
    assert_eq!(
        Command::parse("function Main.fib 2"),
        Some(Command::Function { name: "Main.fib".to_string(), n_locals: 2 })
    );
    assert_eq!(
        Command::parse("call Main.fib 1"),
        Some(Command::Call { name: "Main.fib".to_string(), n_args: 1 })
    );
    assert_eq!(Command::parse("return"), Some(Command::Return));
    assert!(Command::parse("label").is_none());
    assert!(Command::parse("call Main.fib x").is_none());
}

#[test]
fn index_limits() {
    assert_eq!(PushPopCommand::parse("push constant 65535").unwrap().index, 65535);
    assert!(PushPopCommand::parse("push constant 65536").is_none());
    assert_eq!(PushPopCommand::parse("push constant +3").unwrap().index, 3);
    assert!(PushPopCommand::parse("push constant -3").is_none());
}

#[test]
fn parser_skips_blank_and_comment_lines() {
    let mut p = Parser::new("// header\n\n  push constant 1\nbogus line\r\n   // note\nadd\n");
    assert!(p.has_more_lines());
    match p.advance() {
        Some(Command::PushPop(c)) => assert_eq!(c.index, 1),
        other => panic!("unexpected {:?}", other),
    }
    assert!(p.has_more_lines());
    assert_eq!(p.advance(), None);
    assert!(p.has_more_lines());
    assert_eq!(p.advance(), Some(Command::Arithmetic(ArithmeticCommand::Add)));
    assert!(!p.has_more_lines());
    assert_eq!(p.advance(), None);
}

#[test]
fn segment_and_kind_words() {
    assert_eq!(Segment::parse(" local "), Some(Segment::Local));
    assert_eq!(Segment::parse("locals"), None);
    assert_eq!(Segment::parse("local x"), None);
    assert_eq!(PushPop::parse("pop"), Some(PushPop::Pop));
    assert_eq!(PushPop::parse(""), None);
}

#[test]
fn unicode_whitespace_separates_tokens() {
    assert_eq!(
        Command::parse("call\u{A0}f 1"),
        Some(Command::Call { name: "f".to_string(), n_args: 1 })
    );
    assert_eq!(Command::parse("\u{3000}add\u{2003}"), Some(Command::Arithmetic(ArithmeticCommand::Add)));
}

#[test]
fn parsable_entry_points() {
    assert_eq!(<Segment as Parsable>::parse(" temp "), Some(Segment::Temp));
    assert_eq!(<PushPop as Parsable>::parse("push"), Some(PushPop::Push));
    assert_eq!(<ArithmeticCommand as Parsable>::parse("not"), Some(ArithmeticCommand::Not));
    assert!(<PushPopCommand as Parsable>::parse("pop static 3").is_some());
    assert_eq!(<Command as Parsable>::parse("return"), Some(Command::Return));
}

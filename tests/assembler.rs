use hack_vm::asm_parser::{InstructionType, Parser};
use hack_vm::assembler::Assembler;
use hack_vm::code::{comp, dest, jump, CodeGenError};

const ADD_ASM: &str = "// Computes R0 = 2 + 3  (R0 refers to RAM[0])

@2
D=A
@3
D=D+A
@0
M=D
";

const ADD_HACK: &str = "0000000000000010
1110110000010000
0000000000000011
1110000010010000
0000000000000000
1110001100001000";

const MAX_ASM: &str = "// Computes R2 = max(R0, R1)  (R0,R1,R2 refer to RAM[0],RAM[1],RAM[2])

   @R0
   D=M
   @R1
   D=D-M
   @OUTPUT_FIRST
   D;JGT
   @R1
   D=M
   @OUTPUT_D
   0;JMP
(OUTPUT_FIRST)
   @R0
   D=M
(OUTPUT_D)
   @R2
   M=D
(INFINITE_LOOP)
   @INFINITE_LOOP
   0;JMP
";

const MAX_L_ASM: &str = "// Symbol-less version of Max.asm
@0
D=M
@1
D=D-M
@10
D;JGT
@1
D=M
@12
0;JMP
@0
D=M
@2
M=D
@14
0;JMP
";

const MAX_HACK: &str = "0000000000000000
1111110000010000
0000000000000001
1111010011010000
0000000000001010
1110001100000001
0000000000000001
1111110000010000
0000000000001100
1110101010000111
0000000000000000
1111110000010000
0000000000000010
1110001100001000
0000000000001110
1110101010000111";

const RECT_ASM: &str = "// Draws a rectangle at the top-left corner of the screen.
// The rectangle is 16 pixels wide and R0 pixels high.

   @0
   D=M
   @INFINITE_LOOP
   D;JLE
   @counter
   M=D
   @SCREEN
   D=A
   @address
   M=D
(LOOP)
   @address
   A=M
   M=-1
   @address
   D=M
   @32
   D=D+A
   @address
   M=D
   @counter
   MD=M-1
   @LOOP
   D;JGT
(INFINITE_LOOP)
   @INFINITE_LOOP
   0;JMP
";

const RECT_L_ASM: &str = "// Symbol-less version of Rect.asm
@0
D=M
@23
D;JLE
@16
M=D
@16384
D=A
@17
M=D
@17
A=M
M=-1
@17
D=M
@32
D=D+A
@17
M=D
@16
MD=M-1
@10
D;JGT
@23
0;JMP
";

const RECT_HACK: &str = "0000000000000000
1111110000010000
0000000000010111
1110001100000110
0000000000010000
1110001100001000
0100000000000000
1110110000010000
0000000000010001
1110001100001000
0000000000010001
1111110000100000
1110111010001000
0000000000010001
1111110000010000
0000000000100000
1110000010010000
0000000000010001
1110001100001000
0000000000010000
1111110010011000
0000000000001010
1110001100000001
0000000000010111
1110101010000111";

fn assemble(source: &str) -> String {
    let mut program = Assembler::new(source);
    program.write().unwrap()
}

#[test]
fn test_add() {
    assert_eq!(ADD_HACK, assemble(ADD_ASM));
}

#[test]
fn test_max() {
    assert_eq!(MAX_HACK, assemble(MAX_ASM));
}

#[test]
fn test_max_l() {
    assert_eq!(MAX_HACK, assemble(MAX_L_ASM));
}

#[test]
fn test_rect() {
    assert_eq!(RECT_HACK, assemble(RECT_ASM));
}

#[test]
fn test_rect_l() {
    assert_eq!(RECT_HACK, assemble(RECT_L_ASM));
}

#[test]
fn test_parse_dst_comp_c_instruction() {
    {
        let parser = Parser::new("D=A");

        assert_eq!(parser.dest(), "D");
        assert_eq!(parser.comp(), "A");
        assert_eq!(parser.jump(), "");
    }

    {
        let parser = Parser::new("D=D+A");

        assert_eq!(parser.dest(), "D");
        assert_eq!(parser.comp(), "D+A");
        assert_eq!(parser.jump(), "");
    }
}

#[test]
fn test_parse_comp_jump_c_instruction() {
    {
        let parser = Parser::new("0;JMP");

        assert_eq!(parser.dest(), "");
        assert_eq!(parser.comp(), "0");
        assert_eq!(parser.jump(), "JMP");
    }

    {
        let parser = Parser::new("D;JMP");

        assert_eq!(parser.dest(), "");
        assert_eq!(parser.comp(), "D");
        assert_eq!(parser.jump(), "JMP");
    }
}

#[test]
fn test_parse_dest_comp_jump_c_instruction() {
    {
        let parser = Parser::new("D=1;JMP");

        assert_eq!(parser.dest(), "D");
        assert_eq!(parser.comp(), "1");
        assert_eq!(parser.jump(), "JMP");
    }

    {
        let parser = Parser::new("M=D;JNE");

        assert_eq!(parser.dest(), "M");
        assert_eq!(parser.comp(), "D");
        assert_eq!(parser.jump(), "JNE");
    }
}

#[test]
fn test_parse_a_instruction() {
    {
        let parser = Parser::new("@123");

        assert_eq!(parser.symbol(), "123")
    }

    {
        let parser = Parser::new("@xxx");

        assert_eq!(parser.symbol(), "xxx")
    }

    {
        let parser = Parser::new("@xxx   ");

        assert_eq!(parser.symbol(), "xxx   ")
    }
}

#[test]
fn test_parse_label() {
    {
        let parser = Parser::new("(abc)");

        assert_eq!(parser.symbol(), "abc")
    }

    {
        let parser = Parser::new("(LOOP  )");

        assert_eq!(parser.symbol(), "LOOP  ")
    }
}

#[test]
fn test_advance() {
    let source = r#"
// some comment


@R0
D=M
(LABEL)
  // comment
  @R0
        "#;

    let mut parser = Parser::new(source);

    // move to first instruction
    assert!(parser.has_more_lines());
    parser.advance();
    assert_eq!(parser.instruction_type(), InstructionType::InstA);

    // next instruction
    assert!(parser.has_more_lines());
    parser.advance();
    assert_eq!(parser.instruction_type(), InstructionType::InstC);

    // next instruction
    assert!(parser.has_more_lines());
    parser.advance();
    assert_eq!(parser.instruction_type(), InstructionType::InstL);

    // next instruction
    assert!(parser.has_more_lines());
    parser.advance();
    assert_eq!(parser.instruction_type(), InstructionType::InstA);

    // no instruction
    assert_eq!(parser.has_more_lines(), false);
}

#[test]
fn code_tables() {
    assert_eq!(dest(" MD "), Ok("011"));
    assert_eq!(dest(""), Ok("000"));
    assert_eq!(dest("Q"), Err(CodeGenError::InvalidInstruction));
    assert_eq!(comp("D|M"), Ok("1010101"));
    assert_eq!(comp("A-D"), Ok("0000111"));
    assert_eq!(comp("D*M"), Err(CodeGenError::InvalidInstruction));
    assert_eq!(jump("JLE"), Ok("110"));
    assert_eq!(jump(""), Ok("000"));
    assert_eq!(jump("JXX"), Err(CodeGenError::InvalidInstruction));
    assert_eq!(comp("\u{A0}D"), Ok("0001100"));
    assert_eq!(jump("\u{A0}JMP"), Ok("111"));
    assert_eq!(dest("\u{A0}M"), Ok("001"));
}

#[test]
fn invalid_instruction_is_an_error() {
    let mut program = Assembler::new("@1\nD=Q\n");
    assert_eq!(program.write(), Err(CodeGenError::InvalidInstruction));
}

#[test]
fn variables_get_addresses_from_sixteen_and_keep_them() {
    assert_eq!(
        assemble("@a\n@b\n@a\n@KBD\n"),
        "0000000000010000\n0000000000010001\n0000000000010000\n0110000000000000"
    );
}

#[test]
fn first_label_wins_and_labels_take_no_address() {
    assert_eq!(
        assemble("(X)\n@X\n(X)\n@X\n0;JMP"),
        "\n0000000000000000\n0000000000000000\n1110101010000111"
    );
}

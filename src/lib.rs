//! A translator from the stack-based VM language to Hack assembly, and a
//! two-pass assembler from Hack assembly to 16-bit machine words.
//!
//! `command`, `parser`, `writer` and `translator` read VM source and emit
//! assembly; `hack` holds the emitted instructions and their text;
//! `machine` and `laws` state what the emitted code does on a model of the
//! Hack machine; `asm_parser`, `code` and `assembler` turn assembly text
//! into machine code.
pub mod text;
pub mod command;
pub mod parser;
pub mod hack;
pub mod writer;
pub mod translator;
pub mod machine;
pub mod laws;
pub mod code;
pub mod asm_parser;
pub mod assembler;

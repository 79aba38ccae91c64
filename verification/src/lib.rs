//! SimpleASM: a tiny register-machine instruction set, its assembler and its
//! virtual machine.
//!
//! The crate is layered leaves-first: operand values, instructions and their
//! wire format, the lexer and parser of the assembly language, the assembler
//! with its label resolution, and the interpreter.

pub mod assembler;
pub mod chars;
pub mod error;
pub mod expr;
pub mod instruction;
pub mod parser;
pub mod scanner;
pub mod token;
pub mod value;
pub mod vm;

pub use assembler::{
    compile, compile_to_context, compile_to_instructions, CompileContext, ContextView,
};
pub use error::{Error, ErrorView};
pub use expr::{Expr, ExprView};
pub use instruction::{Instruction, ParamIdx};
pub use parser::parse;
pub use scanner::{Scanner, ScannerAction};
pub use token::{tokenize, try_tokenize, GroupDelim, Token, TokenView};
pub use value::{Immediate, Register, Value, Width};
pub use vm::utils::RegisterValue;
pub use vm::{VmState, VM};

//! The error sum shared by the whole toolchain.

use vstd::prelude::*;
use crate::instruction::Instruction;
use crate::value::Width;

verus! {

/// Everything that can go wrong while assembling or running a program.
#[derive(Debug, PartialEq)]
pub enum Error {
    /// The operands of an instruction break its validity rules.
    InvalidOperands(Instruction),
    /// A number does not fit the width asked for.
    NumberOOB(u64, Width),
    /// The input ended, or stopped making sense, in the middle of a token.
    EOL,
    /// An instruction, named by its mnemonic, lacks an operand or a comma.
    MissingToken(String),
    /// A token, shown by its debug text, cannot stand where it was found.
    UnexpectedToken(String, String),
    /// The mnemonic names no instruction.
    UnknownInstruction(String),
    /// A label is referred to and defined nowhere.
    LabelNotDefined(String),
    /// There is no byte to decode.
    NoOpcode,
    /// The byte that carries the register selectors is missing.
    NoRegs,
    /// A byte of an immediate is missing: its low byte (0) or high byte (1).
    NoValue(u8),
    /// The opcode byte is not assigned.
    NoSuchOpcode(u8),
    /// Any other failure, by its message.
    Misc(String),
}

impl Clone for Error {
    /// A copy with the same view.
    fn clone(&self) -> (copy: Self)
        ensures
            copy@ == self@,
    {
        match self {
            Error::InvalidOperands(instr) => Error::InvalidOperands(*instr),
            Error::NumberOOB(value, width) => Error::NumberOOB(*value, *width),
            Error::EOL => Error::EOL,
            Error::MissingToken(ctx) => Error::MissingToken(ctx.clone()),
            Error::UnexpectedToken(ctx, token) => Error::UnexpectedToken(
                ctx.clone(),
                token.clone(),
            ),
            Error::UnknownInstruction(name) => Error::UnknownInstruction(name.clone()),
            Error::LabelNotDefined(name) => Error::LabelNotDefined(name.clone()),
            Error::NoOpcode => Error::NoOpcode,
            Error::NoRegs => Error::NoRegs,
            Error::NoValue(k) => Error::NoValue(*k),
            Error::NoSuchOpcode(op) => Error::NoSuchOpcode(*op),
            Error::Misc(msg) => Error::Misc(msg.clone()),
        }
    }
}

/// An error as a mathematical value: strings by their characters.
pub enum ErrorView {
    InvalidOperands(Instruction),
    NumberOOB(u64, Width),
    EOL,
    MissingToken(Seq<char>),
    UnexpectedToken(Seq<char>, Seq<char>),
    UnknownInstruction(Seq<char>),
    LabelNotDefined(Seq<char>),
    NoOpcode,
    NoRegs,
    NoValue(u8),
    NoSuchOpcode(u8),
    Misc(Seq<char>),
}

impl View for Error {
    type V = ErrorView;

    open spec fn view(&self) -> ErrorView {
        match self {
            Error::InvalidOperands(instr) => ErrorView::InvalidOperands(*instr),
            Error::NumberOOB(value, width) => ErrorView::NumberOOB(*value, *width),
            Error::EOL => ErrorView::EOL,
            Error::MissingToken(ctx) => ErrorView::MissingToken(ctx@),
            Error::UnexpectedToken(ctx, tok) => ErrorView::UnexpectedToken(ctx@, tok@),
            Error::UnknownInstruction(name) => ErrorView::UnknownInstruction(name@),
            Error::LabelNotDefined(name) => ErrorView::LabelNotDefined(name@),
            Error::NoOpcode => ErrorView::NoOpcode,
            Error::NoRegs => ErrorView::NoRegs,
            Error::NoValue(k) => ErrorView::NoValue(*k),
            Error::NoSuchOpcode(op) => ErrorView::NoSuchOpcode(*op),
            Error::Misc(msg) => ErrorView::Misc(msg@),
        }
    }
}

/// A result with its error, if any, taken by its view.
pub open spec fn result_view<T>(r: Result<T, Error>) -> Result<T, ErrorView> {
    match r {
        Ok(v) => Ok(v),
        Err(e) => Err(e@),
    }
}

} // verus!

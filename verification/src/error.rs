//! The errors of decoding and simulation.

use crate::instructions::Instruction;
use vstd::prelude::*;

verus! {

/// What can go wrong while decoding or simulating.
#[derive(Debug)]
pub enum IntelError {
    /// The input ended inside an instruction.
    IncompleteByteStream,
    /// The first byte of an instruction is no opcode that the decoder knows.
    UnsupportedOpcode(u8),
    InvalidOpcode(u8),
    /// An instruction asked for more than six bytes.
    InstructionOverflow,
    /// The three-bit operation field of the second byte names no operation.
    UnsupportedOperation(u8),
    /// The program, with its size and the size it must stay under, does not
    /// fit into memory.
    ProgramTooBig(usize, usize),
    InvalidAddress(usize),
    /// The simulator does not execute the operation with this name.
    UnsupportedSimulationOperation(String),
    /// The cycle model needs the address of a memory operand, and the
    /// instruction has none.
    InvalidInstruction(Instruction),
    /// The simulator does not execute the instruction with this operand.
    InvalidOperand(String),
    UnknownRegister(String),
}

/// An [`IntelError`] with its messages as sequences of characters.
pub enum ErrorView {
    IncompleteByteStream,
    UnsupportedOpcode(u8),
    InvalidOpcode(u8),
    InstructionOverflow,
    UnsupportedOperation(u8),
    ProgramTooBig(usize, usize),
    InvalidAddress(usize),
    UnsupportedSimulationOperation(Seq<char>),
    InvalidInstruction(Instruction),
    InvalidOperand(Seq<char>),
    UnknownRegister(Seq<char>),
}

impl View for IntelError {
    type V = ErrorView;

    open spec fn view(&self) -> ErrorView {
        match self {
            IntelError::IncompleteByteStream => ErrorView::IncompleteByteStream,
            IntelError::UnsupportedOpcode(b) => ErrorView::UnsupportedOpcode(*b),
            IntelError::InvalidOpcode(b) => ErrorView::InvalidOpcode(*b),
            IntelError::InstructionOverflow => ErrorView::InstructionOverflow,
            IntelError::UnsupportedOperation(b) => ErrorView::UnsupportedOperation(*b),
            IntelError::ProgramTooBig(size, max) => ErrorView::ProgramTooBig(*size, *max),
            IntelError::InvalidAddress(a) => ErrorView::InvalidAddress(*a),
            IntelError::UnsupportedSimulationOperation(s) => {
                ErrorView::UnsupportedSimulationOperation(s@)
            },
            IntelError::InvalidInstruction(i) => ErrorView::InvalidInstruction(*i),
            IntelError::InvalidOperand(s) => ErrorView::InvalidOperand(s@),
            IntelError::UnknownRegister(s) => ErrorView::UnknownRegister(s@),
        }
    }
}

/// Whether a result is the one that the model gives: the same value, or an
/// error with the same view.
pub open spec fn agrees<T>(got: Result<T, IntelError>, model: Result<T, ErrorView>) -> bool {
    match (got, model) {
        (Ok(a), Ok(b)) => a == b,
        (Err(e), Err(f)) => e@ == f,
        _ => false,
    }
}

} // verus!

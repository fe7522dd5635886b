//! The cycle tables: what each operation costs, by the kinds of its operands.

use crate::instructions::Instruction;
use crate::instructions::Operand;
use crate::instructions::Operation;
use crate::registers::Register;
use crate::registers::EAC;
use vstd::prelude::*;

verus! {

/// The kinds of a destination and a source, destination first.
#[derive(Debug, Clone, Copy, PartialEq, Eq, Structural)]
pub enum OperandPair {
    RegisterRegister,
    RegisterMemory,
    MemoryRegister,
}

/// The kind of an operand, as the cycle tables tell operands apart.
#[derive(Debug, Clone, Copy, PartialEq, Eq, Structural)]
pub enum OperandKind {
    /// Any effective address.
    Memory,
    /// Any register, the accumulator included.
    Register,
    /// The register `ax`.
    Accumulator,
    Immediate,
}

/// A row of a cycle table: the operand kinds it is for, the base cost, the
/// number of memory transfers, and whether the cost of computing the
/// effective address is charged too.
#[derive(Debug, Clone, Copy, PartialEq, Eq, Structural)]
pub struct InstructionCost {
    pub dst: OperandKind,
    pub src: OperandKind,
    pub base_cost: u8,
    pub transfers: u8,
    pub eac_cost: bool,
}

/// Whether `operand` is of kind `kind`.
pub open spec fn operand_is(operand: Operand, kind: OperandKind) -> bool {
    match kind {
        OperandKind::Memory => operand is EAC,
        OperandKind::Register => operand is Register,
        OperandKind::Accumulator => operand == Operand::Register(Register::word(0)),
        OperandKind::Immediate => operand is Immediate,
    }
}

/// Whether `operand` is of kind `operand_kind`.
pub fn operand_matches(operand: &Operand, operand_kind: &OperandKind) -> (matches: bool)
    ensures
        matches == operand_is(*operand, *operand_kind),
{
    match operand_kind {
        OperandKind::Memory => matches!(operand, Operand::EAC(_)),
        OperandKind::Register => matches!(operand, Operand::Register(_)),
        OperandKind::Accumulator => {
            if let Operand::Register(register) = operand {
                let width = register.len();
                let ordinal = register.reg();
                proof {
                    Register::lemma_catalog(*register);
                }
                if width == 2 && ordinal == 0 {
                    return true;
                }
            }
            false
        },
        OperandKind::Immediate => matches!(operand, Operand::Immediate(_)),
    }
}

impl InstructionCost {
    /// Whether the row is for the operands of `instruction`.
    pub open spec fn spec_matches(self, instruction: Instruction) -> bool {
        operand_is(instruction.dst, self.dst) && operand_is(instruction.src, self.src)
    }

    pub fn new(
        dst: OperandKind,
        src: OperandKind,
        base_cost: u8,
        transfers: u8,
        eac_cost: bool,
    ) -> (row: Self)
        ensures
            row == (InstructionCost { dst, src, base_cost, transfers, eac_cost }),
    {
        Self { dst, src, base_cost, transfers, eac_cost }
    }

    /// Whether the row is for the operands of `instruction`.
    pub fn matches(&self, instruction: &Instruction) -> (matches: bool)
        ensures
            matches == self.spec_matches(*instruction),
    {
        if !operand_matches(&instruction.dst, &self.dst) {
            return false;
        }
        if !operand_matches(&instruction.src, &self.src) {
            return false;
        }
        true
    }
}

/// A row of a table, written as the table has it.
pub open spec fn row(
    dst: OperandKind,
    src: OperandKind,
    base_cost: u8,
    transfers: u8,
    eac_cost: bool,
) -> InstructionCost {
    InstructionCost { dst, src, base_cost, transfers, eac_cost }
}

/// The rows for a move.
pub open spec fn mov_rows() -> Seq<InstructionCost> {
    seq![
        row(OperandKind::Memory, OperandKind::Accumulator, 10, 1, false),
        row(OperandKind::Accumulator, OperandKind::Memory, 10, 1, false),
        row(OperandKind::Register, OperandKind::Register, 2, 0, false),
        row(OperandKind::Register, OperandKind::Memory, 8, 1, true),
        row(OperandKind::Memory, OperandKind::Register, 9, 1, true),
        row(OperandKind::Register, OperandKind::Immediate, 4, 0, false),
        row(OperandKind::Memory, OperandKind::Immediate, 10, 1, false),
    ]
}

/// The rows for an addition and for a subtraction.
pub open spec fn add_sub_rows() -> Seq<InstructionCost> {
    seq![
        row(OperandKind::Register, OperandKind::Register, 3, 0, false),
        row(OperandKind::Register, OperandKind::Memory, 9, 1, true),
        row(OperandKind::Memory, OperandKind::Register, 16, 2, true),
        row(OperandKind::Register, OperandKind::Immediate, 4, 0, false),
        row(OperandKind::Memory, OperandKind::Immediate, 17, 2, true),
        row(OperandKind::Accumulator, OperandKind::Immediate, 4, 0, false),
    ]
}

/// The rows for a comparison.
pub open spec fn compare_rows() -> Seq<InstructionCost> {
    seq![
        row(OperandKind::Register, OperandKind::Register, 3, 0, false),
        row(OperandKind::Register, OperandKind::Memory, 9, 1, true),
        row(OperandKind::Memory, OperandKind::Register, 9, 1, true),
        row(OperandKind::Register, OperandKind::Immediate, 4, 0, false),
        row(OperandKind::Memory, OperandKind::Immediate, 10, 1, true),
        row(OperandKind::Accumulator, OperandKind::Immediate, 4, 0, false),
    ]
}

/// The table of an operation; jumps and loops have none.
pub open spec fn cost_rows(operation: Operation) -> Option<Seq<InstructionCost>> {
    match operation {
        Operation::Mov => Some(mov_rows()),
        Operation::Add => Some(add_sub_rows()),
        Operation::Sub => Some(add_sub_rows()),
        Operation::Cmp => Some(compare_rows()),
        _ => None,
    }
}

/// The table of an operation, if it has one.
pub fn cost_table(operation: &Operation) -> (table: Option<Vec<InstructionCost>>)
    ensures
        match cost_rows(*operation) {
            Some(rows) => table is Some && table->0@ == rows,
            None => table is None,
        },
{
    let memory = OperandKind::Memory;
    let register = OperandKind::Register;
    let accumulator = OperandKind::Accumulator;
    let immediate = OperandKind::Immediate;
    match operation {
        Operation::Mov => {
            let mut rows: Vec<InstructionCost> = Vec::new();
            rows.push(InstructionCost::new(memory, accumulator, 10, 1, false));
            rows.push(InstructionCost::new(accumulator, memory, 10, 1, false));
            rows.push(InstructionCost::new(register, register, 2, 0, false));
            rows.push(InstructionCost::new(register, memory, 8, 1, true));
            rows.push(InstructionCost::new(memory, register, 9, 1, true));
            rows.push(InstructionCost::new(register, immediate, 4, 0, false));
            rows.push(InstructionCost::new(memory, immediate, 10, 1, false));
            proof {
                assert(rows@ =~= mov_rows());
            }
            Some(rows)
        },
        Operation::Add | Operation::Sub => {
            let mut rows: Vec<InstructionCost> = Vec::new();
            rows.push(InstructionCost::new(register, register, 3, 0, false));
            rows.push(InstructionCost::new(register, memory, 9, 1, true));
            rows.push(InstructionCost::new(memory, register, 16, 2, true));
            rows.push(InstructionCost::new(register, immediate, 4, 0, false));
            rows.push(InstructionCost::new(memory, immediate, 17, 2, true));
            rows.push(InstructionCost::new(accumulator, immediate, 4, 0, false));
            proof {
                assert(rows@ =~= add_sub_rows());
            }
            Some(rows)
        },
        Operation::Cmp => {
            let mut rows: Vec<InstructionCost> = Vec::new();
            rows.push(InstructionCost::new(register, register, 3, 0, false));
            rows.push(InstructionCost::new(register, memory, 9, 1, true));
            rows.push(InstructionCost::new(memory, register, 9, 1, true));
            rows.push(InstructionCost::new(register, immediate, 4, 0, false));
            rows.push(InstructionCost::new(memory, immediate, 10, 1, true));
            rows.push(InstructionCost::new(accumulator, immediate, 4, 0, false));
            proof {
                assert(rows@ =~= compare_rows());
            }
            Some(rows)
        },
        _ => None,
    }
}

/// The cycles that computing an effective address takes: by the registers
/// that are summed, and by whether there is a displacement.
pub open spec fn eac_cost(eac: EAC) -> nat {
    match eac {
        EAC::BxSi(offset) => if offset == 0 { 7 } else { 11 },
        EAC::BxDi(offset) => if offset == 0 { 8 } else { 12 },
        EAC::BpSi(offset) => if offset == 0 { 8 } else { 12 },
        EAC::BpDi(offset) => if offset == 0 { 7 } else { 11 },
        EAC::Si(offset) => if offset == 0 { 5 } else { 9 },
        EAC::Di(offset) => if offset == 0 { 5 } else { 9 },
        EAC::Bp(offset) => if offset == 0 { 5 } else { 9 },
        EAC::Bx(offset) => if offset == 0 { 5 } else { 9 },
        EAC::DirectAddress(_) => 6,
    }
}

/// The cycles that computing the effective address `eac` takes.
pub fn resolve_eac_cost(eac: &EAC) -> (cost: usize)
    ensures
        cost == eac_cost(*eac),
        cost <= 12,
{
    match eac {
        EAC::BxSi(offset) => if *offset == 0 { 7 } else { 11 },
        EAC::BxDi(offset) => if *offset == 0 { 8 } else { 12 },
        EAC::BpSi(offset) => if *offset == 0 { 8 } else { 12 },
        EAC::BpDi(offset) => if *offset == 0 { 7 } else { 11 },
        EAC::Si(offset) => if *offset == 0 { 5 } else { 9 },
        EAC::Di(offset) => if *offset == 0 { 5 } else { 9 },
        EAC::Bp(offset) => if *offset == 0 { 5 } else { 9 },
        EAC::Bx(offset) => if *offset == 0 { 5 } else { 9 },
        EAC::DirectAddress(_) => 6,
    }
}

} // verus!

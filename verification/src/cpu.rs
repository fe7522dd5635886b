//! The processor: its registers, flags and memory, and what an instruction
//! does to them.

use crate::error::ErrorView;
use crate::error::IntelError;
use crate::instructions::Instruction;
use crate::instructions::Operand;
use crate::instructions::Operation;
use crate::registers::Jump;
use crate::registers::JumpDescription;
use crate::registers::Register;
use crate::registers::EAC;
use crate::tables::cost_rows;
use crate::tables::cost_table;
use crate::tables::eac_cost;
use crate::tables::resolve_eac_cost;
use crate::tables::InstructionCost;
use crate::tables::OperandKind;
use crate::text::decimal;
use crate::text::hex4;
use crate::text::push_decimal;
use crate::text::push_hex4;
use vstd::prelude::*;
use vstd::string::StringExecFns;

verus! {

/// The size of the memory in bytes: one mebibyte.
pub const MEMORY_SIZE: usize = 0x10_0000;

/// The zero flag and the sign flag.
#[derive(Debug, Clone, Copy, PartialEq, Eq, Structural)]
pub struct CPUFlags {
    /// The last arithmetic result was zero.
    pub z: bool,
    /// The last arithmetic result was negative.
    pub s: bool,
}

impl Default for CPUFlags {
    fn default() -> (flags: Self)
        ensures
            flags == (CPUFlags { z: false, s: false }),
    {
        CPUFlags { z: false, s: false }
    }
}

/// The state of the processor as a mathematical value: the nine registers
/// (`ax`, `cx`, `dx`, `bx`, `sp`, `bp`, `si`, `di`, `ip`), the flags and the
/// memory.
pub struct CpuState {
    pub registers: Seq<u16>,
    pub flags: CPUFlags,
    pub memory: Seq<u8>,
}

impl CpuState {
    /// Nine registers and a memory of [`MEMORY_SIZE`] bytes.
    pub open spec fn wf(self) -> bool {
        self.registers.len() == 9 && self.memory.len() == MEMORY_SIZE
    }

    /// The state after a reset: everything zero.
    pub open spec fn reset() -> CpuState {
        CpuState {
            registers: Seq::new(9, |i: int| 0u16),
            flags: CPUFlags { z: false, s: false },
            memory: Seq::new(MEMORY_SIZE as nat, |i: int| 0u8),
        }
    }

    pub open spec fn ax(self) -> u16 {
        self.registers[0]
    }

    pub open spec fn cx(self) -> u16 {
        self.registers[1]
    }

    pub open spec fn dx(self) -> u16 {
        self.registers[2]
    }

    pub open spec fn bx(self) -> u16 {
        self.registers[3]
    }

    pub open spec fn sp(self) -> u16 {
        self.registers[4]
    }

    pub open spec fn bp(self) -> u16 {
        self.registers[5]
    }

    pub open spec fn si(self) -> u16 {
        self.registers[6]
    }

    pub open spec fn di(self) -> u16 {
        self.registers[7]
    }

    pub open spec fn ip(self) -> u16 {
        self.registers[8]
    }

    /// The state with the register at `ordinal` set to `value`.
    pub open spec fn with_register(self, ordinal: int, value: u16) -> CpuState {
        CpuState { registers: self.registers.update(ordinal, value), ..self }
    }

    /// The state with the instruction pointer set to `ip`.
    pub open spec fn with_ip(self, ip: u16) -> CpuState {
        self.with_register(8, ip)
    }

    /// The state with the flags set from an arithmetic result: zero if the
    /// result is zero, sign if it is negative.
    pub open spec fn with_flags(self, result: int) -> CpuState {
        CpuState { flags: CPUFlags { z: result == 0, s: result < 0 }, ..self }
    }

    /// The little-endian word at `address`.
    pub open spec fn load16(self, address: int) -> u16 {
        (self.memory[address] + 256 * self.memory[address + 1]) as u16
    }

    /// The state with `value` stored at `address` as a little-endian word.
    pub open spec fn store16(self, address: int, value: u16) -> CpuState {
        CpuState {
            memory: self.memory.update(address, (value % 256) as u8).update(
                address + 1,
                (value / 256) as u8,
            ),
            ..self
        }
    }

    /// The address that an effective-address form resolves to: the sum of its
    /// registers and its displacement, modulo 2^16.
    pub open spec fn address(self, eac: EAC) -> u16 {
        match eac {
            EAC::BxSi(offset) => ((self.bx() + self.si() + offset) % 0x1_0000) as u16,
            EAC::BxDi(offset) => ((self.bx() + self.di() + offset) % 0x1_0000) as u16,
            EAC::BpSi(offset) => ((self.bp() + self.si() + offset) % 0x1_0000) as u16,
            EAC::BpDi(offset) => ((self.bp() + self.di() + offset) % 0x1_0000) as u16,
            EAC::Si(offset) => ((self.si() + offset) % 0x1_0000) as u16,
            EAC::Di(offset) => ((self.di() + offset) % 0x1_0000) as u16,
            EAC::Bp(offset) => ((self.bp() + offset) % 0x1_0000) as u16,
            EAC::Bx(offset) => ((self.bx() + offset) % 0x1_0000) as u16,
            EAC::DirectAddress(address) => address,
        }
    }

    /// The state with `program` copied to the start of the memory.
    pub open spec fn with_program(self, program: Seq<u8>) -> CpuState {
        CpuState {
            memory: Seq::new(
                self.memory.len(),
                |i: int|
                    if i < program.len() {
                        program[i]
                    } else {
                        self.memory[i]
                    },
            ),
            ..self
        }
    }
}

/// A word stored and loaded again is the same word, and it lies in memory low
/// byte first.
pub proof fn lemma_store_then_load(state: CpuState, address: int, value: u16)
    requires
        0 <= address,
        address + 1 < state.memory.len(),
    ensures
        state.store16(address, value).load16(address) == value,
        state.store16(address, value).memory[address] == value % 256,
        state.store16(address, value).memory[address + 1] == value / 256,
        state.store16(address, value).memory.len() == state.memory.len(),
        forall|other: int|
            0 <= other < state.memory.len() && other != address && other != address + 1
                ==> state.store16(address, value).memory[other] == state.memory[other],
{
}

/// The processor: nine word registers, the flags, and a memory of
/// [`MEMORY_SIZE`] bytes.
pub struct CPU {
    registers: [u16; 9],
    memory: Vec<u8>,
    flags: CPUFlags,
}

impl View for CPU {
    type V = CpuState;

    closed spec fn view(&self) -> CpuState {
        CpuState { registers: self.registers@, flags: self.flags, memory: self.memory@ }
    }
}

impl CPU {
    #[verifier::type_invariant]
    spec fn memory_is_whole(&self) -> bool {
        self.memory@.len() == MEMORY_SIZE
    }

    /// A processor after a reset: registers, flags and memory all zero.
    pub fn new() -> (cpu: Self)
        ensures
            cpu@ == CpuState::reset(),
            cpu@.wf(),
    {
        let cpu = CPU {
            registers: [0u16; 9],
            memory: vec![0u8; MEMORY_SIZE],
            flags: CPUFlags { z: false, s: false },
        };
        proof {
            assert(cpu.registers@ =~= CpuState::reset().registers);
            assert(cpu.memory@ =~= CpuState::reset().memory);
        }
        cpu
    }

    pub fn ax(&self) -> (value: u16)
        ensures
            value == self@.ax(),
    {
        self.registers[0]
    }

    pub fn cx(&self) -> (value: u16)
        ensures
            value == self@.cx(),
    {
        self.registers[1]
    }

    pub fn dx(&self) -> (value: u16)
        ensures
            value == self@.dx(),
    {
        self.registers[2]
    }

    pub fn bx(&self) -> (value: u16)
        ensures
            value == self@.bx(),
    {
        self.registers[3]
    }

    pub fn sp(&self) -> (value: u16)
        ensures
            value == self@.sp(),
    {
        self.registers[4]
    }

    pub fn bp(&self) -> (value: u16)
        ensures
            value == self@.bp(),
    {
        self.registers[5]
    }

    pub fn si(&self) -> (value: u16)
        ensures
            value == self@.si(),
    {
        self.registers[6]
    }

    pub fn di(&self) -> (value: u16)
        ensures
            value == self@.di(),
    {
        self.registers[7]
    }

    pub fn ip(&self) -> (value: u16)
        ensures
            value == self@.ip(),
    {
        self.registers[8]
    }

    /// The instruction pointer as an index into the memory.
    pub fn ip_address(&self) -> (address: usize)
        ensures
            address == self@.ip(),
    {
        self.ip() as usize
    }

    pub fn set_ip(&mut self, ip: u16)
        ensures
            final(self)@ == old(self)@.with_ip(ip),
            final(self)@.wf(),
    {
        proof {
            use_type_invariant(&*self);
        }
        self.registers[8] = ip;
        proof {
            assert(self.registers@ =~= old(self).registers@.update(8, ip));
        }
    }

    /// The flags.
    pub fn flags(&self) -> (flags: CPUFlags)
        ensures
            flags == self@.flags,
    {
        self.flags
    }

    /// Sets the flags.
    pub fn set_flags(&mut self, flags: CPUFlags)
        ensures
            final(self)@ == (CpuState { flags, ..old(self)@ }),
            final(self)@.wf(),
    {
        proof {
            use_type_invariant(&*self);
        }
        self.flags = flags;
    }

    /// The word in the register file at the ordinal of `reg`: for a byte
    /// register, the whole word.
    pub fn get_register(&self, reg: &Register) -> (value: u16)
        ensures
            reg.ordinal() <= 8,
            value == self@.registers[reg.ordinal() as int],
    {
        self.registers[reg.reg() as usize]
    }

    /// Sets the word in the register file at the ordinal of `reg`.
    pub fn set_register(&mut self, reg: &Register, value: u16)
        ensures
            reg.ordinal() <= 8,
            final(self)@ == old(self)@.with_register(reg.ordinal() as int, value),
            final(self)@.wf(),
    {
        proof {
            use_type_invariant(&*self);
        }
        let ordinal = reg.reg() as usize;
        self.registers[ordinal] = value;
        proof {
            assert(self.registers@ =~= old(self).registers@.update(ordinal as int, value));
        }
    }

    /// Copies `program` to the start of the memory. A program that does not
    /// leave at least one byte of the memory free is refused, and nothing
    /// changes.
    pub fn set_program(&mut self, program: &[u8]) -> (done: Result<(), IntelError>)
        ensures
            final(self)@.wf(),
            program@.len() >= MEMORY_SIZE ==> {
                &&& done is Err
                &&& done->Err_0@ == ErrorView::ProgramTooBig(program@.len() as usize, MEMORY_SIZE)
                &&& final(self)@ == old(self)@
            },
            program@.len() < MEMORY_SIZE ==> {
                &&& done is Ok
                &&& final(self)@ == old(self)@.with_program(program@)
            },
    {
        proof {
            use_type_invariant(&*self);
        }
        if program.len() >= self.memory.len() {
            return Err(IntelError::ProgramTooBig(program.len(), self.memory.len()));
        }
        let mut i: usize = 0;
        while i < program.len()
            invariant
                i <= program@.len() < MEMORY_SIZE,
                self.memory@.len() == MEMORY_SIZE,
                self.registers == old(self).registers,
                self.flags == old(self).flags,
                forall|j: int|
                    0 <= j < MEMORY_SIZE ==> #[trigger] self.memory@[j] == if j < i {
                        program@[j]
                    } else {
                        old(self).memory@[j]
                    },
            decreases program@.len() - i,
        {
            self.memory[i] = program[i];
            i += 1;
        }
        proof {
            assert(self.memory@ =~= old(self)@.with_program(program@).memory);
        }
        Ok(())
    }

    /// The whole memory.
    pub fn get_memory(&self) -> (memory: &[u8])
        ensures
            memory@ == self@.memory,
            memory@.len() == MEMORY_SIZE,
    {
        proof {
            use_type_invariant(self);
        }
        self.memory.as_slice()
    }

    /// Sets the flags from an arithmetic result.
    pub fn process_flags(&mut self, value: i32)
        ensures
            final(self)@ == old(self)@.with_flags(value as int),
            final(self)@.wf(),
    {
        proof {
            use_type_invariant(&*self);
        }
        self.flags.z = value == 0;
        self.flags.s = value < 0;
    }

    /// The flags that are set, as letters: `Z`, then `S`.
    pub fn print_flags(&self) -> (s: String)
        ensures
            s@ == flags_text(self@.flags),
    {
        let mut result = String::new();
        if self.flags.z {
            result.append("Z");
        }
        if self.flags.s {
            result.append("S");
        }
        proof {
            assert(result@ =~= flags_text(self@.flags));
        }
        result
    }

    /// The address that `eac` resolves to, and the word that lies there.
    pub fn resolve_eac(&self, eac: &EAC) -> (resolved: (u16, u16))
        ensures
            resolved.0 == self@.address(*eac),
            resolved.1 == self@.load16(resolved.0 as int),
    {
        let address = match eac {
            EAC::BxSi(offset) => self.bx().wrapping_add(self.si()).wrapping_add(*offset),
            EAC::BxDi(offset) => self.bx().wrapping_add(self.di()).wrapping_add(*offset),
            EAC::BpSi(offset) => self.bp().wrapping_add(self.si()).wrapping_add(*offset),
            EAC::BpDi(offset) => self.bp().wrapping_add(self.di()).wrapping_add(*offset),
            EAC::Si(offset) => self.si().wrapping_add(*offset),
            EAC::Di(offset) => self.di().wrapping_add(*offset),
            EAC::Bp(offset) => self.bp().wrapping_add(*offset),
            EAC::Bx(offset) => self.bx().wrapping_add(*offset),
            EAC::DirectAddress(address) => *address,
        };
        (address, self.loadu16(address as usize))
    }

    /// The little-endian word at `address`.
    pub fn loadu16(&self, address: usize) -> (value: u16)
        requires
            address + 1 < MEMORY_SIZE,
        ensures
            value == self@.load16(address as int),
    {
        proof {
            use_type_invariant(self);
        }
        let b1 = self.memory[address] as u16;
        let b2 = self.memory[address + 1] as u16;
        assert(b1 | (b2 << 8) == b1 + 256 * b2) by (bit_vector)
            requires
                b1 < 256,
                b2 < 256,
        ;
        b1 | (b2 << 8)
    }

    /// Stores `value` at `address` as a little-endian word.
    pub fn storeu16(&mut self, address: usize, value: u16)
        requires
            address + 1 < MEMORY_SIZE,
        ensures
            final(self)@ == old(self)@.store16(address as int, value),
            final(self)@.wf(),
    {
        proof {
            use_type_invariant(&*self);
        }
        assert((value & 0xFF) == value % 256 && (value >> 8) == value / 256 && (value >> 8) < 256)
            by (bit_vector);
        let b1: u8 = (value & 0xFF) as u8;
        let b2: u8 = (value >> 8) as u8;
        self.memory[address] = b1;
        self.memory[address + 1] = b2;
    }
}

/// The letters of the flags that are set.
pub open spec fn flags_text(flags: CPUFlags) -> Seq<char> {
    (if flags.z {
        "Z"@
    } else {
        Seq::empty()
    }) + (if flags.s {
        "S"@
    } else {
        Seq::empty()
    })
}

/// A word as the dumps write it: four hexadecimal digits, then the decimal
/// value in parentheses.
pub open spec fn word_text(value: u16) -> Seq<char> {
    "0x"@ + hex4(value) + " ("@ + decimal(value as nat) + ")"@
}

/// A word as the dumps write it, such as `0x00FF (255)`.
pub fn printu16(value: u16) -> (s: String)
    ensures
        s@ == word_text(value),
{
    let mut s = String::from_str("0x");
    push_hex4(&mut s, value);
    s.append(" (");
    push_decimal(&mut s, value);
    s.append(")");
    proof {
        assert(s@ =~= word_text(value));
    }
    s
}

/// Whether `value` is odd.
pub fn is_odd(value: u16) -> (odd: bool)
    ensures
        odd == (value % 2 == 1),
{
    assert((value & 1 == 1) == (value % 2 == 1)) by (bit_vector);
    value & 1 == 1
}

/// What the error of an operand that cannot be executed says of it.
pub open spec fn invalid_operand_text(operand: Operand) -> Seq<char> {
    "Operand: "@ + operand.text()
}

/// The word that a source operand stands for: the register, the immediate,
/// or the word in memory at the effective address. A byte register is
/// refused with its name, anything else with the text of the operand.
pub open spec fn source_value(state: CpuState, src: Operand) -> Result<u16, ErrorView> {
    match src {
        Operand::Register(register) => if register.width() < 2 {
            Err(ErrorView::InvalidOperand(register.spec_name()@))
        } else {
            Ok(state.registers[register.ordinal() as int])
        },
        Operand::Immediate(value) => Ok(value),
        Operand::EAC(eac) => Ok(state.load16(state.address(eac) as int)),
        _ => Err(ErrorView::InvalidOperand(invalid_operand_text(src))),
    }
}

/// What a move does: the destination, a word register or a word in memory,
/// takes the value of the source. The flags stay.
pub open spec fn mov_effect(state: CpuState, instruction: Instruction) -> Result<
    CpuState,
    ErrorView,
> {
    match source_value(state, instruction.src) {
        Err(error) => Err(error),
        Ok(value) => match instruction.dst {
            Operand::Register(register) => if register.width() < 2 {
                Err(ErrorView::InvalidOperand(register.spec_name()@))
            } else {
                Ok(state.with_register(register.ordinal() as int, value))
            },
            Operand::EAC(eac) => Ok(state.store16(state.address(eac) as int, value)),
            _ => Err(ErrorView::InvalidOperand(invalid_operand_text(instruction.src))),
        },
    }
}

/// The result of an arithmetic operation, from which the flags are set, and
/// the word that is written back, if one is. An addition wraps to 16 bits
/// before the flags are set; a subtraction and a comparison set them from the
/// signed difference.
pub open spec fn arithmetic(operation: Operation, before: u16, src: u16) -> Option<
    (int, Option<u16>),
> {
    match operation {
        Operation::Add => {
            let result = (before + src) % 0x1_0000;
            Some((result, Some(result as u16)))
        },
        Operation::Sub => {
            let result = before - src;
            Some((result, Some((result % 0x1_0000) as u16)))
        },
        Operation::Cmp => Some((before - src, None)),
        _ => None,
    }
}

/// What an addition, a subtraction or a comparison does: the destination, a
/// word register or a word in memory, is combined with the source; the
/// result is written back, but for a comparison; zero and sign are set from
/// the result.
pub open spec fn arithmetic_effect(state: CpuState, instruction: Instruction) -> Result<
    CpuState,
    ErrorView,
> {
    match source_value(state, instruction.src) {
        Err(error) => Err(error),
        Ok(src) => match instruction.dst {
            Operand::Register(register) => if register.width() < 2 {
                Err(ErrorView::InvalidOperand(register.spec_name()@))
            } else {
                let ordinal = register.ordinal() as int;
                match arithmetic(instruction.operation, state.registers[ordinal], src) {
                    None => Err(
                        ErrorView::UnsupportedSimulationOperation(instruction.operation.text()),
                    ),
                    Some((result, Some(word))) => Ok(
                        state.with_register(ordinal, word).with_flags(result),
                    ),
                    Some((result, None)) => Ok(state.with_flags(result)),
                }
            },
            Operand::EAC(eac) => {
                let address = state.address(eac) as int;
                match arithmetic(instruction.operation, state.load16(address), src) {
                    None => Err(
                        ErrorView::UnsupportedSimulationOperation(instruction.operation.text()),
                    ),
                    Some((result, Some(word))) => Ok(
                        state.store16(address, word).with_flags(result),
                    ),
                    Some((result, None)) => Ok(state.with_flags(result)),
                }
            },
            _ => Err(ErrorView::InvalidOperand(invalid_operand_text(instruction.src))),
        },
    }
}

/// The offset of a jump: the source operand if it is an offset, else the
/// destination operand if that is one.
pub open spec fn offset_of(instruction: Instruction) -> Option<i8> {
    match instruction.src {
        Operand::JumpOffset(offset) => Some(offset),
        _ => match instruction.dst {
            Operand::JumpOffset(offset) => Some(offset),
            _ => None,
        },
    }
}

/// What a loop instruction does: `cx` is decremented, and the branch is taken
/// when `cx` has become zero and `taken_if` holds.
pub open spec fn loop_effect(state: CpuState, target: u16, taken_if: bool) -> CpuState {
    let count = ((state.cx() - 1) % 0x1_0000) as u16;
    let counted = state.with_register(1, count);
    if count == 0 && taken_if {
        counted.with_ip(target)
    } else {
        counted
    }
}

/// What a jump or a loop does, the instruction pointer standing behind the
/// instruction already. `je`, `jne`, `js` and `jns` branch on the zero or the
/// sign flag. `loopnz` branches when `cx` has become zero and the zero flag
/// is clear, `loopz` and `loop` when `cx` has become zero and the zero flag is
/// set. The other jumps are not executed.
pub open spec fn jump_effect(
    state: CpuState,
    instruction: Instruction,
    description: JumpDescription,
) -> Result<CpuState, ErrorView> {
    match offset_of(instruction) {
        None => Err(
            ErrorView::UnsupportedSimulationOperation(
                "No JumpOffset operand for jump instruction"@,
            ),
        ),
        Some(offset) => {
            let target = ((state.ip() + offset) % 0x1_0000) as u16;
            match description.jump {
                Jump::JE => Ok(if state.flags.z { state.with_ip(target) } else { state }),
                Jump::JNE => Ok(if !state.flags.z { state.with_ip(target) } else { state }),
                Jump::JS => Ok(if state.flags.s { state.with_ip(target) } else { state }),
                Jump::JNS => Ok(if !state.flags.s { state.with_ip(target) } else { state }),
                Jump::LOOPNZ => Ok(loop_effect(state, target, !state.flags.z)),
                Jump::LOOPZ => Ok(loop_effect(state, target, state.flags.z)),
                Jump::LOOP => Ok(loop_effect(state, target, state.flags.z)),
                _ => Err(ErrorView::UnsupportedSimulationOperation(description.name@)),
            }
        },
    }
}

/// The memory operand of an instruction: the destination if it is one, else
/// the source if that is one.
pub open spec fn memory_operand(instruction: Instruction) -> Option<EAC> {
    match instruction.dst {
        Operand::EAC(eac) => Some(eac),
        _ => match instruction.src {
            Operand::EAC(eac) => Some(eac),
            _ => None,
        },
    }
}

/// What one row of a table charges for an instruction: nothing if the row is
/// not for its operands; else the base cost, four cycles for each transfer
/// if the address of the memory operand is odd, and the cost of the effective
/// address if the row says so. A row with transfers cannot be charged for an
/// instruction without a memory operand.
pub open spec fn row_charge(
    state: CpuState,
    instruction: Instruction,
    row: InstructionCost,
) -> Result<nat, ErrorView> {
    if !row.spec_matches(instruction) {
        Ok(0)
    } else if row.transfers == 0 {
        Ok(row.base_cost as nat)
    } else {
        match memory_operand(instruction) {
            None => Err(ErrorView::InvalidInstruction(instruction)),
            Some(eac) => Ok(
                row.base_cost as nat + (if state.address(eac) % 2 == 1 {
                    4 * row.transfers as nat
                } else {
                    0
                }) + (if row.eac_cost {
                    eac_cost(eac)
                } else {
                    0
                }),
            ),
        }
    }
}

/// What the rows charge together: the sum of what each charges, or the error
/// of the first that cannot be charged.
pub open spec fn rows_charge(
    state: CpuState,
    instruction: Instruction,
    rows: Seq<InstructionCost>,
) -> Result<nat, ErrorView>
    decreases rows.len(),
{
    if rows.len() == 0 {
        Ok(0)
    } else {
        match rows_charge(state, instruction, rows.drop_last()) {
            Err(error) => Err(error),
            Ok(sum) => match row_charge(state, instruction, rows.last()) {
                Err(error) => Err(error),
                Ok(charge) => Ok(sum + charge),
            },
        }
    }
}

/// The cycles of an instruction in a state: what the rows of the table of
/// its operation charge. An operation without a table has no cost.
pub open spec fn cycle_cost(state: CpuState, instruction: Instruction) -> Result<nat, ErrorView> {
    match cost_rows(instruction.operation) {
        None => Err(ErrorView::UnsupportedSimulationOperation(instruction.operation.text())),
        Some(rows) => rows_charge(state, instruction, rows),
    }
}

/// The cycles that are charged for an instruction: its cost, and nothing
/// where it has none.
#[verifier::opaque]
pub open spec fn charged(state: CpuState, instruction: Instruction) -> nat {
    match cycle_cost(state, instruction) {
        Ok(cycles) => cycles,
        Err(_) => 0,
    }
}

/// The state with the instruction pointer moved behind `instruction`.
pub open spec fn advanced(state: CpuState, instruction: Instruction) -> CpuState {
    state.with_ip(((state.ip() + instruction.len) % 0x1_0000) as u16)
}

/// What executing an instruction does to the state, without the move of the
/// instruction pointer behind it.
pub open spec fn effect(state: CpuState, instruction: Instruction) -> Result<CpuState, ErrorView> {
    match instruction.operation {
        Operation::Mov => mov_effect(state, instruction),
        Operation::Add => arithmetic_effect(state, instruction),
        Operation::Sub => arithmetic_effect(state, instruction),
        Operation::Cmp => arithmetic_effect(state, instruction),
        Operation::Jump(description) => jump_effect(state, instruction, description),
        Operation::Invalid => Err(
            ErrorView::UnsupportedSimulationOperation(instruction.operation.text()),
        ),
    }
}

/// One step of the processor: the instruction pointer moves behind the
/// instruction, then the instruction takes effect. The result is the state
/// after the step and the cycles charged. The cycles are counted in the state
/// in which the instruction takes effect, so that the address of a memory
/// operand is the one that was read or written. Where the instruction cannot
/// be executed, only the instruction pointer has moved.
pub open spec fn step(state: CpuState, instruction: Instruction) -> (
    CpuState,
    Result<nat, ErrorView>,
) {
    let start = advanced(state, instruction);
    match effect(start, instruction) {
        Err(error) => (start, Err(error)),
        Ok(after) => (after, Ok(charged(start, instruction))),
    }
}

/// Whether an executed step is the one that the model gives: the state that
/// the instruction leaves, with the cycles counted in the state before it, or
/// the error and the state unchanged.
pub open spec fn step_agrees(
    before: CpuState,
    after: CpuState,
    cycles: Result<usize, IntelError>,
    model: Result<CpuState, ErrorView>,
    instruction: Instruction,
) -> bool {
    match model {
        Err(error) => cycles is Err && cycles->Err_0@ == error && after == before,
        Ok(state) => cycles matches Ok(charge) && charge == charged(before, instruction) && after
            == state,
    }
}

/// An error among the first rows is the error of the whole table.
proof fn lemma_prefix_error(
    state: CpuState,
    instruction: Instruction,
    rows: Seq<InstructionCost>,
    n: int,
)
    requires
        0 <= n <= rows.len(),
        rows_charge(state, instruction, rows.take(n)) is Err,
    ensures
        rows_charge(state, instruction, rows) == rows_charge(state, instruction, rows.take(n)),
    decreases rows.len() - n,
{
    if n == rows.len() {
        assert(rows.take(n) =~= rows);
    } else {
        assert(rows.take(n + 1).drop_last() =~= rows.take(n));
        lemma_prefix_error(state, instruction, rows, n + 1);
    }
}

impl CPU {
    /// What `row` charges for `instruction` in the present state: nothing if
    /// the row is not for its operands.
    pub fn row_cost(&self, instruction: &Instruction, row: &InstructionCost) -> (cost: Result<
        usize,
        IntelError,
    >)
        ensures
            match row_charge(self@, *instruction, *row) {
                Ok(cycles) => cost matches Ok(count) && count == cycles && count <= 1300,
                Err(error) => cost is Err && cost->Err_0@ == error,
            },
    {
        if !row.matches(instruction) {
            return Ok(0);
        }
        let mut cost: usize = row.base_cost as usize;
        if row.transfers > 0 {
            let eac: EAC = if let Operand::EAC(e) = instruction.dst {
                e
            } else if let Operand::EAC(e) = instruction.src {
                e
            } else {
                return Err(IntelError::InvalidInstruction(*instruction));
            };
            // Each transfer at an odd address takes four cycles more.
            let (address, _) = self.resolve_eac(&eac);
            if is_odd(address) {
                cost += 4 * row.transfers as usize;
            }
            if row.eac_cost {
                cost += resolve_eac_cost(&eac);
            }
        }
        Ok(cost)
    }

    /// The cycles of `instruction` in the present state: what the rows of
    /// the table of its operation charge together. For an operation without
    /// a table the error names the operation.
    pub fn determine_instruction_cycle_cost(&self, instruction: &Instruction) -> (cost: Result<
        usize,
        IntelError,
    >)
        ensures
            match cycle_cost(self@, *instruction) {
                Ok(cycles) => cost matches Ok(count) && count == cycles,
                Err(error) => cost is Err && cost->Err_0@ == error,
            },
    {
        let table = match cost_table(&instruction.operation) {
            Some(table) => table,
            None => {
                return Err(
                    IntelError::UnsupportedSimulationOperation(instruction.operation.to_string()),
                );
            },
        };
        let mut total_cost: usize = 0;
        let mut i: usize = 0;
        while i < table.len()
            invariant
                i <= table@.len() <= 7,
                total_cost <= i * 1300,
                cost_rows(instruction.operation) == Some(table@),
                rows_charge(self@, *instruction, table@.take(i as int)) == Ok::<nat, ErrorView>(
                    total_cost as nat,
                ),
            decreases table@.len() - i,
        {
            proof {
                assert(table@.take(i + 1).drop_last() =~= table@.take(i as int));
                assert(table@.take(i + 1).last() == table@[i as int]);
            }
            match self.row_cost(instruction, &table[i]) {
                Ok(cost) => {
                    total_cost += cost;
                },
                Err(error) => {
                    proof {
                        lemma_prefix_error(self@, *instruction, table@, i + 1);
                    }
                    return Err(error);
                },
            }
            i += 1;
        }
        proof {
            assert(table@.take(table@.len() as int) =~= table@);
        }
        Ok(total_cost)
    }

    /// The cycles that are charged for `instruction` in the present state:
    /// its cost, and nothing where it has none.
    fn charge(&self, instruction: &Instruction) -> (cycles: usize)
        ensures
            cycles == charged(self@, *instruction),
    {
        reveal(charged);
        match self.determine_instruction_cycle_cost(instruction) {
            Ok(cycles) => cycles,
            Err(_) => 0,
        }
    }

    /// Reads a source operand.
    fn read_source(&self, src: &Operand) -> (value: Result<u16, IntelError>)
        ensures
            match source_value(self@, *src) {
                Ok(word) => value == Ok::<u16, IntelError>(word),
                Err(error) => value is Err && value->Err_0@ == error,
            },
    {
        match src {
            Operand::Register(reg) => {
                if reg.len() < 2 {
                    return Err(IntelError::InvalidOperand(reg.to_string()));
                }
                Ok(self.get_register(reg))
            },
            Operand::Immediate(value) => Ok(*value),
            Operand::EAC(eac) => {
                let (_, value) = self.resolve_eac(eac);
                Ok(value)
            },
            _ => Err(invalid_operand(src)),
        }
    }

    /// Executes a move.
    pub fn simulate_mov(&mut self, instruction: &Instruction) -> (cycles: Result<usize, IntelError>)
        ensures
            final(self)@.wf(),
            step_agrees(
                old(self)@,
                final(self)@,
                cycles,
                mov_effect(old(self)@, *instruction),
                *instruction,
            ),
    {
        proof {
            use_type_invariant(&*self);
        }
        // The cycles are counted before anything changes.
        let cycles = self.charge(instruction);
        let src = self.read_source(&instruction.src)?;
        match &instruction.dst {
            Operand::Register(reg) => {
                if reg.len() < 2 {
                    return Err(IntelError::InvalidOperand(reg.to_string()));
                }
                self.set_register(reg, src);
            },
            Operand::EAC(eac) => {
                let (address, _) = self.resolve_eac(eac);
                self.storeu16(address as usize, src);
            },
            _ => {
                return Err(invalid_operand(&instruction.src));
            },
        }
        Ok(cycles)
    }

    /// Executes an addition, a subtraction or a comparison.
    pub fn simulate_op(&mut self, instruction: &Instruction) -> (cycles: Result<usize, IntelError>)
        ensures
            final(self)@.wf(),
            step_agrees(
                old(self)@,
                final(self)@,
                cycles,
                arithmetic_effect(old(self)@, *instruction),
                *instruction,
            ),
    {
        proof {
            use_type_invariant(&*self);
        }
        // The cycles are counted before anything changes.
        let cycles = self.charge(instruction);
        let src = self.read_source(&instruction.src)?;
        match &instruction.dst {
            Operand::Register(dst) => {
                if dst.len() < 2 {
                    return Err(IntelError::InvalidOperand(dst.to_string()));
                }
                let before = self.get_register(dst);
                match combine(&instruction.operation, before, src) {
                    Some((result, Some(word))) => {
                        self.set_register(dst, word);
                        self.process_flags(result);
                    },
                    Some((result, None)) => {
                        self.process_flags(result);
                    },
                    None => {
                        return Err(
                            IntelError::UnsupportedSimulationOperation(
                                instruction.operation.to_string(),
                            ),
                        );
                    },
                }
            },
            Operand::EAC(eac) => {
                let (address, before) = self.resolve_eac(eac);
                match combine(&instruction.operation, before, src) {
                    Some((result, Some(word))) => {
                        self.storeu16(address as usize, word);
                        self.process_flags(result);
                    },
                    Some((result, None)) => {
                        self.process_flags(result);
                    },
                    None => {
                        return Err(
                            IntelError::UnsupportedSimulationOperation(
                                instruction.operation.to_string(),
                            ),
                        );
                    },
                }
            },
            _ => {
                return Err(invalid_operand(&instruction.src));
            },
        }
        Ok(cycles)
    }

    /// Decrements `cx`, and branches to `target` when it has become zero and
    /// `taken_if` holds.
    fn count_and_branch(&mut self, target: u16, taken_if: bool)
        ensures
            final(self)@ == loop_effect(old(self)@, target, taken_if),
            final(self)@.wf(),
    {
        let cx = self.cx().wrapping_sub(1);
        let counter = Register::interpret(1, true);
        proof {
            Register::lemma_catalog(counter);
        }
        self.set_register(&counter, cx);
        if cx == 0 && taken_if {
            self.set_ip(target)
        }
    }

    /// Executes a jump or a loop; the instruction pointer stands behind the
    /// instruction already.
    pub fn simulate_jump(
        &mut self,
        instruction: &Instruction,
        jump_description: &JumpDescription,
    ) -> (cycles: Result<usize, IntelError>)
        ensures
            final(self)@.wf(),
            step_agrees(
                old(self)@,
                final(self)@,
                cycles,
                jump_effect(old(self)@, *instruction, *jump_description),
                *instruction,
            ),
    {
        proof {
            use_type_invariant(&*self);
        }
        // The cycles are counted before anything changes.
        let cycles = self.charge(instruction);
        let offset: i8 = if let Operand::JumpOffset(offset) = instruction.src {
            offset
        } else if let Operand::JumpOffset(offset) = instruction.dst {
            offset
        } else {
            return Err(
                IntelError::UnsupportedSimulationOperation(
                    String::from_str("No JumpOffset operand for jump instruction"),
                ),
            );
        };
        let sum: i32 = (self.ip() as i32) + (offset as i32);
        let target: u16 = if sum < 0 {
            (sum + 0x1_0000) as u16
        } else if sum > 0xFFFF {
            (sum - 0x1_0000) as u16
        } else {
            sum as u16
        };
        let zero = self.flags.z;
        let sign = self.flags.s;
        match jump_description.jump {
            Jump::JE => {
                if zero {
                    self.set_ip(target)
                }
            },
            Jump::JNE => {
                if !zero {
                    self.set_ip(target)
                }
            },
            Jump::JS => {
                if sign {
                    self.set_ip(target)
                }
            },
            Jump::JNS => {
                if !sign {
                    self.set_ip(target)
                }
            },
            // The loops branch when the count has run out, not while it
            // lasts. Programs written for this simulator rely on it.
            Jump::LOOPNZ => self.count_and_branch(target, !zero),
            Jump::LOOPZ => self.count_and_branch(target, zero),
            Jump::LOOP => self.count_and_branch(target, zero),
            _ => {
                return Err(
                    IntelError::UnsupportedSimulationOperation(
                        String::from_str(jump_description.name),
                    ),
                );
            },
        }
        Ok(cycles)
    }

    /// Executes one instruction: moves the instruction pointer behind it,
    /// then lets it take effect. Gives the cycles that it took.
    pub fn simulate(&mut self, instruction: &Instruction) -> (cycles: Result<usize, IntelError>)
        ensures
            final(self)@.wf(),
            final(self)@ == step(old(self)@, *instruction).0,
            match step(old(self)@, *instruction).1 {
                Ok(count) => cycles matches Ok(charge) && charge == count,
                Err(error) => cycles is Err && cycles->Err_0@ == error,
            },
    {
        self.set_ip(self.ip().wrapping_add(instruction.len as u16));
        match &instruction.operation {
            Operation::Mov => self.simulate_mov(instruction),
            Operation::Add => self.simulate_op(instruction),
            Operation::Sub => self.simulate_op(instruction),
            Operation::Cmp => self.simulate_op(instruction),
            Operation::Jump(jump_description) => self.simulate_jump(instruction, jump_description),
            _ => Err(
                IntelError::UnsupportedSimulationOperation(instruction.operation.to_string()),
            ),
        }
    }
}

/// The result of an arithmetic operation, from which the flags are set, and
/// the word to write back, if there is one.
fn combine(operation: &Operation, before: u16, src: u16) -> (combined: Option<(i32, Option<u16>)>)
    ensures
        match arithmetic(*operation, before, src) {
            Some((result, word)) => combined matches Some(pair) && pair.0 == result && pair.1
                == word,
            None => combined is None,
        },
{
    match operation {
        Operation::Add => {
            let result: u16 = before.wrapping_add(src);
            Some((result as i32, Some(result)))
        },
        Operation::Sub => {
            let result: i32 = (before as i32) - (src as i32);
            Some((result, Some(before.wrapping_sub(src))))
        },
        Operation::Cmp => {
            let result: i32 = (before as i32) - (src as i32);
            Some((result, None))
        },
        _ => None,
    }
}

/// The error for an operand that cannot be executed.
fn invalid_operand(operand: &Operand) -> (error: IntelError)
    ensures
        error@ == ErrorView::InvalidOperand(invalid_operand_text(*operand)),
{
    let mut message = String::from_str("Operand: ");
    message.append(operand.to_string().as_str());
    IntelError::InvalidOperand(message)
}

/// A register of a dump: its name, and its value in quotes.
pub open spec fn field_text(name: Seq<char>, value: u16) -> Seq<char> {
    name + ": \""@ + word_text(value) + "\""@
}

/// The registers and flags of a state, as a dump writes them.
pub open spec fn dump_text(state: CpuState) -> Seq<char> {
    "CPU { "@ + field_text("ax"@, state.ax()) + ", "@ + field_text("cx"@, state.cx()) + ", "@
        + field_text("dx"@, state.dx()) + ", "@ + field_text("bx"@, state.bx()) + ", "@
        + field_text("sp"@, state.sp()) + ", "@ + field_text("bp"@, state.bp()) + ", "@
        + field_text("si"@, state.si()) + ", "@ + field_text("di"@, state.di()) + ", "@
        + field_text("ip"@, state.ip()) + ", flags: \""@ + flags_text(state.flags) + "\" }"@
}

/// Appends a register of a dump to `out`.
fn push_field(out: &mut String, name: &str, value: u16)
    ensures
        final(out)@ == old(out)@ + field_text(name@, value),
{
    out.append(name);
    out.append(": \"");
    out.append(printu16(value).as_str());
    out.append("\"");
    proof {
        assert(out@ =~= old(out)@ + field_text(name@, value));
    }
}

impl CPU {
    /// The registers and the flags as text; the memory is left out.
    pub fn to_string(&self) -> (s: String)
        ensures
            s@ == dump_text(self@),
    {
        let mut s = String::from_str("CPU { ");
        push_field(&mut s, "ax", self.ax());
        s.append(", ");
        push_field(&mut s, "cx", self.cx());
        s.append(", ");
        push_field(&mut s, "dx", self.dx());
        s.append(", ");
        push_field(&mut s, "bx", self.bx());
        s.append(", ");
        push_field(&mut s, "sp", self.sp());
        s.append(", ");
        push_field(&mut s, "bp", self.bp());
        s.append(", ");
        push_field(&mut s, "si", self.si());
        s.append(", ");
        push_field(&mut s, "di", self.di());
        s.append(", ");
        push_field(&mut s, "ip", self.ip());
        s.append(", flags: \"");
        s.append(self.print_flags().as_str());
        s.append("\" }");
        proof {
            assert(s@ =~= dump_text(self@));
        }
        s
    }
}

impl PartialEq for CPU {
    /// Two processors are equal when their registers and flags are; the
    /// memory is not compared.
    fn eq(&self, other: &Self) -> (same: bool) {
        let mut i: usize = 0;
        while i < 9
            invariant
                i <= 9,
                forall|j: int| 0 <= j < i ==> self.registers[j] == other.registers[j],
            decreases 9 - i,
        {
            if self.registers[i] != other.registers[i] {
                return false;
            }
            i += 1;
        }
        proof {
            assert(self.registers@ =~= other.registers@);
        }
        self.flags.z == other.flags.z && self.flags.s == other.flags.s
    }
}

impl Eq for CPU {

}

impl vstd::std_specs::cmp::PartialEqSpecImpl for CPU {
    open spec fn obeys_eq_spec() -> bool {
        true
    }

    open spec fn eq_spec(&self, other: &Self) -> bool {
        self@.registers == other@.registers && self@.flags == other@.flags
    }
}

/// The word that an arithmetic instruction finds in its destination.
pub open spec fn destination_value(state: CpuState, dst: Operand) -> u16 {
    match dst {
        Operand::Register(register) => state.registers[register.ordinal() as int],
        Operand::EAC(eac) => state.load16(state.address(eac) as int),
        _ => 0,
    }
}

/// After an addition, a subtraction or a comparison the zero flag says that
/// the result is zero and the sign flag that it is negative. The result of
/// an addition is the sum wrapped to 16 bits, which is never negative; that
/// of a subtraction or a comparison is the difference of destination and
/// source, so that zero says that they are equal and sign that the
/// destination is the smaller.
pub proof fn lemma_flags_follow_result(state: CpuState, instruction: Instruction)
    ensures
        arithmetic_effect(state, instruction) matches Ok(after) ==> {
            let before = destination_value(state, instruction.dst);
            let src = source_value(state, instruction.src)->Ok_0;
            &&& arithmetic(instruction.operation, before, src) matches Some((result, _))
                && after.flags == (CPUFlags { z: result == 0, s: result < 0 })
            &&& instruction.operation is Add ==> after.flags.z == ((before + src) % 0x1_0000 == 0)
                && !after.flags.s
            &&& !(instruction.operation is Add) ==> after.flags.z == (before == src)
                && after.flags.s == (before < src)
        },
        mov_effect(state, instruction) matches Ok(after) ==> after.flags == state.flags,
        forall|description: JumpDescription|
            (#[trigger] jump_effect(state, instruction, description)) is Ok ==> jump_effect(
                state,
                instruction,
                description,
            )->Ok_0.flags == state.flags,
{
}

/// Whether a jump or a loop branches in `state`: by the flags, and for a loop
/// by whether this is the last count of `cx`.
pub open spec fn taken(state: CpuState, jump: Jump) -> bool {
    match jump {
        Jump::JE => state.flags.z,
        Jump::JNE => !state.flags.z,
        Jump::JS => state.flags.s,
        Jump::JNS => !state.flags.s,
        Jump::LOOPNZ => state.cx() == 1 && !state.flags.z,
        Jump::LOOPZ => state.cx() == 1 && state.flags.z,
        Jump::LOOP => state.cx() == 1 && state.flags.z,
        _ => false,
    }
}

/// Where a step leaves the instruction pointer. An instruction of length `k`
/// at address `a` that is no jump, and whose destination is not the
/// instruction pointer, leaves it at `a + k`; so does one that cannot be
/// executed. A
/// jump with offset `o` leaves it at `a + k + o` if the branch is taken, and
/// at `a + k` if not. All addresses wrap at 16 bits.
pub proof fn lemma_instruction_pointer(state: CpuState, instruction: Instruction)
    requires
        state.wf(),
    ensures
        ({
            let (after, cycles) = step(state, instruction);
            let next = (state.ip() + instruction.len) % 0x1_0000;
            &&& advanced(state, instruction).ip() == next
            &&& cycles is Err ==> after == advanced(state, instruction)
            &&& cycles is Ok && !(instruction.operation is Jump) && (instruction.dst matches
                Operand::Register(register) ==> register.ordinal() < 8) ==> after.ip() == next
            &&& cycles is Ok && instruction.operation is Jump ==> {
                &&& offset_of(instruction) is Some
                &&& after.ip() == if taken(state, instruction.operation->Jump_0.jump) {
                    (next + offset_of(instruction)->0) % 0x1_0000
                } else {
                    next
                }
            }
        }),
{
    let start = advanced(state, instruction);
    assert(start.cx() == state.cx());
    assert(start.flags == state.flags);
    match instruction.operation {
        Operation::Jump(description) => {
            if let Some(offset) = offset_of(instruction) {
                let next = (state.ip() + instruction.len) % 0x1_0000;
                assert(start.ip() == next);
                assert((start.ip() + offset) % 0x1_0000 == (next + offset) % 0x1_0000);
            }
        },
        _ => {},
    }
}

/// The rows charge nothing for an instruction that none of them is for.
pub proof fn lemma_no_row_charges(
    state: CpuState,
    instruction: Instruction,
    rows: Seq<InstructionCost>,
)
    requires
        forall|j: int| 0 <= j < rows.len() ==> !rows[j].spec_matches(instruction),
    ensures
        rows_charge(state, instruction, rows) == Ok::<nat, ErrorView>(0),
    decreases rows.len(),
{
    if rows.len() > 0 {
        lemma_no_row_charges(state, instruction, rows.drop_last());
    }
}

/// Where one row only is for an instruction, the rows charge what that row
/// charges.
pub proof fn lemma_one_row_charges(
    state: CpuState,
    instruction: Instruction,
    rows: Seq<InstructionCost>,
    i: int,
)
    requires
        0 <= i < rows.len(),
        forall|j: int| 0 <= j < rows.len() && j != i ==> !rows[j].spec_matches(instruction),
    ensures
        rows_charge(state, instruction, rows) == row_charge(state, instruction, rows[i]),
    decreases rows.len(),
{
    if i == rows.len() - 1 {
        lemma_no_row_charges(state, instruction, rows.drop_last());
    } else {
        lemma_one_row_charges(state, instruction, rows.drop_last(), i);
    }
}

/// The cycle model, row by row: an instruction that row `i` of the table of
/// its operation is for, and no other row, costs the base cost of the row,
/// four cycles for each transfer if the address of its memory operand is odd,
/// and the cost of the effective address if the row charges it.
pub proof fn lemma_cycles_of_row(state: CpuState, instruction: Instruction, i: int)
    requires
        cost_rows(instruction.operation) matches Some(rows) && 0 <= i < rows.len()
            && rows[i].spec_matches(instruction) && (forall|j: int|
            0 <= j < rows.len() && j != i ==> !rows[j].spec_matches(instruction)),
    ensures
        ({
            let row = cost_rows(instruction.operation)->0[i];
            &&& cycle_cost(state, instruction) is Ok
            &&& charged(state, instruction) == cycle_cost(state, instruction)->Ok_0
            &&& row.transfers == 0 ==> charged(state, instruction) == row.base_cost
            &&& row.transfers > 0 ==> memory_operand(instruction) is Some
            &&& row.transfers > 0 ==> {
                let eac = memory_operand(instruction)->0;
                charged(state, instruction) == row.base_cost + (if state.address(eac) % 2 == 1 {
                    4 * row.transfers
                } else {
                    0
                }) + (if row.eac_cost {
                    eac_cost(eac) as int
                } else {
                    0
                })
            }
        }),
{
    reveal(charged);
    let rows = cost_rows(instruction.operation)->0;
    lemma_one_row_charges(state, instruction, rows, i);
    lemma_rows_have_memory(instruction.operation, i);
}

/// Every row of the tables that has transfers is for a memory operand.
pub proof fn lemma_rows_have_memory(operation: Operation, i: int)
    requires
        cost_rows(operation) matches Some(rows) && 0 <= i < rows.len(),
    ensures
        ({
            let row = cost_rows(operation)->0[i];
            row.transfers > 0 ==> row.dst == OperandKind::Memory || row.src
                == OperandKind::Memory
        }),
{
}

/// The rows of a table can always be charged, so an operation with a table
/// always has a cost.
pub proof fn lemma_tables_can_be_charged(state: CpuState, instruction: Instruction)
    ensures
        cost_rows(instruction.operation) is Some ==> cycle_cost(state, instruction) is Ok,
        cost_rows(instruction.operation) is None ==> charged(state, instruction) == 0,
{
    reveal(charged);
    if let Some(rows) = cost_rows(instruction.operation) {
        assert forall|j: int|
            0 <= j < rows.len() && (#[trigger] rows[j]).transfers > 0 implies rows[j].dst
            == OperandKind::Memory || rows[j].src == OperandKind::Memory by {
            lemma_rows_have_memory(instruction.operation, j);
        }
        lemma_rows_can_be_charged(state, instruction, rows);
    }
}

/// Rows whose transfers are for a memory operand can be charged for any
/// instruction.
proof fn lemma_rows_can_be_charged(
    state: CpuState,
    instruction: Instruction,
    rows: Seq<InstructionCost>,
)
    requires
        forall|j: int|
            0 <= j < rows.len() ==> (#[trigger] rows[j]).transfers > 0 ==> rows[j].dst
                == OperandKind::Memory || rows[j].src
                == OperandKind::Memory,
    ensures
        rows_charge(state, instruction, rows) is Ok,
    decreases rows.len(),
{
    if rows.len() > 0 {
        lemma_rows_can_be_charged(state, instruction, rows.drop_last());
        let row = rows.last();
        assert(row == rows[rows.len() - 1]);
    }
}

/// The rows charge the same in two states that resolve every effective
/// address alike.
proof fn lemma_rows_charge_by_address(
    first: CpuState,
    second: CpuState,
    instruction: Instruction,
    rows: Seq<InstructionCost>,
)
    requires
        forall|eac: EAC| #[trigger] first.address(eac) == second.address(eac),
    ensures
        rows_charge(first, instruction, rows) == rows_charge(second, instruction, rows),
    decreases rows.len(),
{
    if rows.len() > 0 {
        lemma_rows_charge_by_address(first, second, instruction, rows.drop_last());
    }
}

/// The cycles of a step are those of the instruction in the state before the
/// step: they are counted before the instruction takes effect, and the move
/// of the instruction pointer does not change them. So an instruction that
/// writes a register of its own memory operand is charged by the address
/// that it read.
pub proof fn lemma_cycles_counted_before_effect(state: CpuState, instruction: Instruction)
    requires
        state.wf(),
    ensures
        step(state, instruction).1 matches Ok(cycles) ==> cycles == charged(state, instruction),
{
    reveal(charged);
    let start = advanced(state, instruction);
    assert forall|eac: EAC| #[trigger] start.address(eac) == state.address(eac) by {}
    if let Some(rows) = cost_rows(instruction.operation) {
        lemma_rows_charge_by_address(start, state, instruction, rows);
    }
}

} // verus!

//! The encodings of the instructions: what each form holds, and the decoders
//! that read them.

use crate::error::agrees;
use crate::error::ErrorView;
use crate::error::IntelError;
use crate::instructions::compare_mask;
use crate::instructions::padded;
use crate::instructions::Instruction;
use crate::instructions::InstructionBits;
use crate::instructions::Operand;
use crate::instructions::Operation;
use crate::registers::JumpDescription;
use crate::registers::Register;
use crate::registers::EAC;
use vstd::prelude::*;

verus! {

pub type IntelResult = Result<Instruction, IntelError>;

/// The MOD field: the two highest bits of the second byte.
pub open spec fn field_mod(byte: u8) -> u8 {
    byte / 64
}

/// The REG field: bits 5 to 3 of a byte.
pub open spec fn field_reg(byte: u8) -> u8 {
    (byte / 8) % 8
}

/// The R/M field: the three lowest bits of a byte.
pub open spec fn field_rm(byte: u8) -> u8 {
    byte % 8
}

/// Bit `index` of `byte`, for an index up to 3.
pub open spec fn bit(byte: u8, index: int) -> bool {
    if index == 0 {
        byte % 2 == 1
    } else if index == 1 {
        (byte / 2) % 2 == 1
    } else if index == 2 {
        (byte / 4) % 2 == 1
    } else {
        (byte / 8) % 2 == 1
    }
}

/// The little-endian word at `bytes[at]` and `bytes[at + 1]`.
pub open spec fn word_at(bytes: Seq<u8>, at: int) -> u16 {
    (bytes[at] + 256 * bytes[at + 1]) as u16
}

/// A byte as a word of the same signed value.
pub open spec fn sign_extended(byte: u8) -> u16 {
    if byte >= 128 {
        (0xFF00 + byte) as u16
    } else {
        byte as u16
    }
}

/// How many displacement bytes follow, by MOD and R/M.
pub open spec fn displacement_len(vmod: u8, rm: u8) -> int {
    if vmod == 0 {
        if rm == 6 {
            2
        } else {
            0
        }
    } else if vmod == 1 {
        1
    } else if vmod == 2 {
        2
    } else {
        0
    }
}

/// The operand that MOD and R/M select, its displacement standing at
/// `bytes[at]`. MOD 11 selects a register, by the width bit; MOD 00 with R/M
/// 110 a direct address; a one-byte displacement is taken as unsigned.
pub open spec fn rm_operand(bytes: Seq<u8>, at: int, vmod: u8, rm: u8, w: bool) -> Operand {
    if vmod == 3 {
        Operand::Register(Register::spec_interpret(rm, w))
    } else if vmod == 0 && rm == 6 {
        Operand::EAC(EAC::DirectAddress(word_at(bytes, at)))
    } else if vmod == 0 {
        Operand::EAC(EAC::spec_new(rm, vmod, 0))
    } else if vmod == 1 {
        Operand::EAC(EAC::spec_new(rm, vmod, bytes[at] as u16))
    } else {
        Operand::EAC(EAC::spec_new(rm, vmod, word_at(bytes, at)))
    }
}

/// How many bytes an immediate takes, by the width bit and the sign bit.
pub open spec fn immediate_len(w: bool, s: bool) -> int {
    if w && !s {
        2
    } else {
        1
    }
}

/// The immediate at `bytes[at]`: a byte, a sign-extended byte, or a
/// little-endian word.
pub open spec fn immediate_at(bytes: Seq<u8>, at: int, w: bool, s: bool) -> u16 {
    if !w {
        bytes[at] as u16
    } else if s {
        sign_extended(bytes[at])
    } else {
        word_at(bytes, at)
    }
}

/// The operation that a three-bit operation field names.
pub open spec fn operation_for(field: u8) -> Option<Operation> {
    if field == 0 {
        Some(Operation::Add)
    } else if field == 1 {
        Some(Operation::Mov)
    } else if field == 5 {
        Some(Operation::Sub)
    } else if field == 7 {
        Some(Operation::Cmp)
    } else {
        None
    }
}

/// Register or memory to or from a register: opcode with the bits D and W,
/// then MOD, REG and R/M, then the displacement. The operation is the one
/// named by bits 5 to 3 of the opcode. With D set the register named by REG is
/// the destination.
pub open spec fn register_memory_form(bytes: Seq<u8>) -> Result<Instruction, ErrorView> {
    if bytes.len() < 2 {
        Err(ErrorView::IncompleteByteStream)
    } else {
        let d = bit(bytes[0], 1);
        let w = bit(bytes[0], 0);
        let vmod = field_mod(bytes[1]);
        let reg = field_reg(bytes[1]);
        let rm = field_rm(bytes[1]);
        let len = 2 + displacement_len(vmod, rm);
        if bytes.len() < len {
            Err(ErrorView::IncompleteByteStream)
        } else {
            match operation_for(field_reg(bytes[0])) {
                None => Err(ErrorView::UnsupportedOperation(field_reg(bytes[0]))),
                Some(operation) => {
                    let register = Operand::Register(Register::spec_interpret(reg, w));
                    let operand = rm_operand(bytes, 2, vmod, rm, w);
                    Ok(
                        Instruction {
                            data: padded(bytes, len),
                            len: len as u8,
                            operation,
                            dst: if d {
                                register
                            } else {
                                operand
                            },
                            src: if d {
                                operand
                            } else {
                                register
                            },
                            bits: InstructionBits {
                                vmod,
                                rm,
                                reg,
                                s: false,
                                w,
                                d,
                                v: false,
                                z: false,
                            },
                        },
                    )
                },
            }
        }
    }
}

/// Whether the opcode `byte` is that of a move of an immediate to register or
/// memory, which has no sign bit.
pub open spec fn is_mov_immediate(byte: u8) -> bool {
    byte / 2 == 0b1100011
}

/// Immediate to register or memory: opcode with the bits S and W, then MOD and
/// R/M, then the displacement, then the immediate. A move has no sign bit: its
/// immediate is as wide as W says.
pub open spec fn immediate_to_register_memory_form(
    bytes: Seq<u8>,
    operation: Operation,
) -> Result<Instruction, ErrorView> {
    if bytes.len() < 2 {
        Err(ErrorView::IncompleteByteStream)
    } else {
        let w = bit(bytes[0], 0);
        let s = !is_mov_immediate(bytes[0]) && bit(bytes[0], 1);
        let vmod = field_mod(bytes[1]);
        let rm = field_rm(bytes[1]);
        let at = 2 + displacement_len(vmod, rm);
        let len = at + immediate_len(w, s);
        if bytes.len() < len {
            Err(ErrorView::IncompleteByteStream)
        } else {
            Ok(
                Instruction {
                    data: padded(bytes, len),
                    len: len as u8,
                    operation,
                    dst: rm_operand(bytes, 2, vmod, rm, w),
                    src: Operand::Immediate(immediate_at(bytes, at, w, s)),
                    bits: InstructionBits {
                        vmod,
                        rm,
                        reg: 0,
                        s,
                        w,
                        d: false,
                        v: false,
                        z: false,
                    },
                },
            )
        }
    }
}

/// Arithmetic with an immediate on register or memory: as
/// [`immediate_to_register_memory_form`], the operation named by the REG
/// field of the second byte.
pub open spec fn arithmetic_immediate_form(bytes: Seq<u8>) -> Result<Instruction, ErrorView> {
    if bytes.len() < 2 {
        Err(ErrorView::IncompleteByteStream)
    } else {
        match operation_for(field_reg(bytes[1])) {
            None => Err(ErrorView::UnsupportedOperation(field_reg(bytes[1]))),
            Some(operation) => immediate_to_register_memory_form(bytes, operation),
        }
    }
}

/// Immediate to a register that the opcode names: the opcode, then an
/// immediate of the register's width.
pub open spec fn immediate_to_register_form(
    bytes: Seq<u8>,
    operation: Operation,
    register: Register,
    w: bool,
) -> Result<Instruction, ErrorView> {
    let len = 1 + immediate_len(w, false);
    if bytes.len() < len {
        Err(ErrorView::IncompleteByteStream)
    } else {
        Ok(
            Instruction {
                data: padded(bytes, len),
                len: len as u8,
                operation,
                dst: Operand::Register(register),
                src: Operand::Immediate(immediate_at(bytes, 1, w, false)),
                bits: InstructionBits {
                    vmod: 0,
                    rm: 0,
                    reg: register.ordinal(),
                    s: false,
                    w,
                    d: false,
                    v: false,
                    z: false,
                },
            },
        )
    }
}

/// A move between the accumulator and a direct address: the opcode with the
/// bit W, then the address as a word.
pub open spec fn accumulator_memory_form(bytes: Seq<u8>, to_accumulator: bool) -> Result<
    Instruction,
    ErrorView,
> {
    if bytes.len() < 3 {
        Err(ErrorView::IncompleteByteStream)
    } else {
        let w = bit(bytes[0], 0);
        let accumulator = Operand::Register(Register::spec_interpret(0, w));
        let memory = Operand::EAC(EAC::DirectAddress(word_at(bytes, 1)));
        Ok(
            Instruction {
                data: padded(bytes, 3),
                len: 3,
                operation: Operation::Mov,
                dst: if to_accumulator {
                    accumulator
                } else {
                    memory
                },
                src: if to_accumulator {
                    memory
                } else {
                    accumulator
                },
                bits: InstructionBits {
                    vmod: 0,
                    rm: 0,
                    reg: 0,
                    s: false,
                    w,
                    d: false,
                    v: false,
                    z: false,
                },
            },
        )
    }
}

/// The offset of a jump: the byte as a signed number.
pub open spec fn jump_offset(byte: u8) -> i8 {
    if byte >= 128 {
        (byte - 256) as i8
    } else {
        byte as i8
    }
}

/// A short jump or a loop: the opcode, then the offset as a signed byte. The
/// offset is the destination operand, and there is no source.
pub open spec fn jump_form(bytes: Seq<u8>, description: JumpDescription) -> Result<
    Instruction,
    ErrorView,
> {
    if bytes.len() < 2 {
        Err(ErrorView::IncompleteByteStream)
    } else {
        Ok(
            Instruction {
                data: padded(bytes, 2),
                len: 2,
                operation: Operation::Jump(description),
                dst: Operand::JumpOffset(jump_offset(bytes[1])),
                src: Operand::Invalid,
                bits: InstructionBits::zero(),
            },
        )
    }
}

/// The instruction at the start of `bytes`, by the leading bits of its first
/// byte.
pub open spec fn decode_spec(bytes: Seq<u8>) -> Result<Instruction, ErrorView> {
    if bytes.len() == 0 {
        Err(ErrorView::IncompleteByteStream)
    } else {
        let opcode = bytes[0];
        if opcode / 4 == 0b100010 || opcode / 4 == 0b000000 || opcode / 4 == 0b001010 || opcode / 4
            == 0b001110 {
            register_memory_form(bytes)
        } else if opcode / 16 == 0b1011 {
            let w = bit(opcode, 3);
            immediate_to_register_form(
                bytes,
                Operation::Mov,
                Register::spec_interpret(field_rm(opcode), w),
                w,
            )
        } else if opcode / 2 == 0b1100011 {
            immediate_to_register_memory_form(bytes, Operation::Mov)
        } else if opcode / 4 == 0b100000 {
            arithmetic_immediate_form(bytes)
        } else if opcode / 2 == 0b1010000 {
            accumulator_memory_form(bytes, true)
        } else if opcode / 2 == 0b1010001 {
            accumulator_memory_form(bytes, false)
        } else if opcode / 2 == 0b0000010 {
            let w = bit(opcode, 0);
            immediate_to_register_form(bytes, Operation::Add, Register::spec_interpret(0, w), w)
        } else if opcode / 2 == 0b0010110 {
            let w = bit(opcode, 0);
            immediate_to_register_form(bytes, Operation::Sub, Register::spec_interpret(0, w), w)
        } else if opcode / 2 == 0b0011110 {
            let w = bit(opcode, 0);
            immediate_to_register_form(bytes, Operation::Cmp, Register::spec_interpret(0, w), w)
        } else {
            match JumpDescription::spec_find(opcode) {
                Some(description) => jump_form(bytes, description),
                None => Err(ErrorView::UnsupportedOpcode(opcode)),
            }
        }
    }
}

/// The MOD field of `byte`.
fn high_field(byte: u8) -> (field: u8)
    ensures
        field == field_mod(byte),
        field < 4,
{
    assert(byte >> 6 == byte / 64) by (bit_vector);
    byte >> 6
}

/// The REG field of `byte`.
fn middle_field(byte: u8) -> (field: u8)
    ensures
        field == field_reg(byte),
        field < 8,
{
    assert((byte >> 3) & 0b111 == (byte / 8) % 8) by (bit_vector);
    (byte >> 3) & 0b111
}

/// The R/M field of `byte`.
fn low_field(byte: u8) -> (field: u8)
    ensures
        field == field_rm(byte),
        field < 8,
{
    assert(byte & 0b111 == byte % 8) by (bit_vector);
    byte & 0b111
}

/// Whether bit `index` of `byte` is set.
fn bit_set(byte: u8, index: u8) -> (set: bool)
    requires
        index <= 3,
    ensures
        set == bit(byte, index as int),
{
    assert(index <= 3 ==> ((byte & (1u8 << index)) != 0) == (if index == 0 {
        byte % 2 == 1
    } else if index == 1 {
        (byte / 2) % 2 == 1
    } else if index == 2 {
        (byte / 4) % 2 == 1
    } else {
        (byte / 8) % 2 == 1
    })) by (bit_vector);
    (byte & (1u8 << index)) != 0
}

/// Reads the displacement that MOD and R/M of the instruction ask for, and
/// gives the operand that they select.
pub fn consume_displacement(bytes: &[u8], instruction: &mut Instruction) -> (operand: Result<
    Operand,
    IntelError,
>)
    requires
        old(instruction).holds(bytes@),
        old(instruction).bits.vmod < 4,
        old(instruction).bits.rm < 8,
    ensures
        ({
            let at = old(instruction).len as int;
            let bits = old(instruction).bits;
            let end = at + displacement_len(bits.vmod, bits.rm);
            &&& end > bytes@.len() ==> operand is Err && operand->Err_0@
                == ErrorView::IncompleteByteStream
            &&& end <= bytes@.len() && end > 6 ==> operand is Err && operand->Err_0@
                == ErrorView::InstructionOverflow
            &&& end <= bytes@.len() && end <= 6 ==> operand == Ok::<Operand, IntelError>(
                rm_operand(bytes@, at, bits.vmod, bits.rm, bits.w),
            )
            &&& operand is Err ==> *final(instruction) == *old(instruction)
            &&& operand is Ok ==> *final(instruction) == (Instruction {
                data: padded(bytes@, end),
                len: end as u8,
                ..*old(instruction)
            })
        }),
{
    let vmod = instruction.bits.vmod;
    let rm = instruction.bits.rm;
    if vmod == 0b00 {
        if rm != 0b110 {
            let eac = EAC::new(rm, vmod, 0);
            Ok(Operand::EAC(eac))
        } else {
            instruction.consume(bytes, 2)?;
            let offset = instruction.lastu16();
            Ok(Operand::EAC(EAC::DirectAddress(offset)))
        }
    } else if vmod == 0b01 {
        instruction.consume(bytes, 1)?;
        let offset = instruction.lastu8() as u16;
        let eac = EAC::new(rm, vmod, offset);
        Ok(Operand::EAC(eac))
    } else if vmod == 0b10 {
        instruction.consume(bytes, 2)?;
        let offset = instruction.lastu16();
        let eac = EAC::new(rm, vmod, offset);
        Ok(Operand::EAC(eac))
    } else {
        let register = Register::interpret(rm, instruction.bits.w);
        Ok(Operand::Register(register))
    }
}

/// Reads the immediate that the width bit and the sign bit of the instruction
/// ask for.
pub fn consume_immediate(bytes: &[u8], instruction: &mut Instruction) -> (operand: Result<
    Operand,
    IntelError,
>)
    requires
        old(instruction).holds(bytes@),
    ensures
        ({
            let at = old(instruction).len as int;
            let bits = old(instruction).bits;
            let end = at + immediate_len(bits.w, bits.s);
            &&& end > bytes@.len() ==> operand is Err && operand->Err_0@
                == ErrorView::IncompleteByteStream
            &&& end <= bytes@.len() && end > 6 ==> operand is Err && operand->Err_0@
                == ErrorView::InstructionOverflow
            &&& end <= bytes@.len() && end <= 6 ==> operand == Ok::<Operand, IntelError>(
                Operand::Immediate(immediate_at(bytes@, at, bits.w, bits.s)),
            )
            &&& operand is Err ==> *final(instruction) == *old(instruction)
            &&& operand is Ok ==> *final(instruction) == (Instruction {
                data: padded(bytes@, end),
                len: end as u8,
                ..*old(instruction)
            })
        }),
{
    if !instruction.bits.w {
        instruction.consume(bytes, 1)?;
        let value = instruction.lastu8() as u16;
        return Ok(Operand::Immediate(value));
    }
    if instruction.bits.s {
        instruction.consume(bytes, 1)?;
        let mut value = instruction.lastu8() as u16;
        if (value & 0b1000_0000) != 0 {
            value = value | (0xFF << 8);
        }
        assert(value == sign_extended(instruction.data[instruction.len - 1])) by {
            let byte = instruction.data[instruction.len - 1];
            assert(((byte as u16) & 0b1000_0000 != 0) == (byte >= 128)) by (bit_vector);
            assert(byte >= 128 ==> (byte as u16) | (0xFFu16 << 8) == 0xFF00 + byte)
                by (bit_vector);
        }
        return Ok(Operand::Immediate(value));
    }
    instruction.consume(bytes, 2)?;
    let value = instruction.lastu16();
    Ok(Operand::Immediate(value))
}

/// The operation that a three-bit operation field names.
pub fn decode_op(op: u8) -> (operation: Result<Operation, IntelError>)
    ensures
        match operation_for(op) {
            Some(known) => operation == Ok::<Operation, IntelError>(known),
            None => operation is Err && operation->Err_0@ == ErrorView::UnsupportedOperation(op),
        },
{
    match op {
        0b000 => Ok(Operation::Add),
        0b001 => Ok(Operation::Mov),
        0b101 => Ok(Operation::Sub),
        0b111 => Ok(Operation::Cmp),
        _ => Err(IntelError::UnsupportedOperation(op)),
    }
}

/// Decodes register or memory to or from a register.
pub fn decode_op_register_memory_to_from_either(bytes: &[u8]) -> (decoded: IntelResult)
    ensures
        agrees(decoded, register_memory_form(bytes@)),
{
    let mut instruction = Instruction::new();
    instruction.consume(bytes, 2)?;

    instruction.bits.d = bit_set(instruction.data[0], 1);
    instruction.bits.w = bit_set(instruction.data[0], 0);
    instruction.bits.vmod = high_field(instruction.data[1]);
    instruction.bits.reg = middle_field(instruction.data[1]);
    instruction.bits.rm = low_field(instruction.data[1]);

    let reg = Operand::Register(Register::interpret(instruction.bits.reg, instruction.bits.w));

    let operand = consume_displacement(bytes, &mut instruction)?;
    let (src, dst) = if instruction.bits.d {
        (operand, reg)
    } else {
        (reg, operand)
    };

    let operation = decode_op(middle_field(instruction.data[0]))?;

    instruction.operation = operation;
    instruction.src = src;
    instruction.dst = dst;

    Ok(instruction)
}

/// Decodes arithmetic with an immediate on register or memory.
pub fn decode_op_immediate_to_register_memory(bytes: &[u8]) -> (decoded: IntelResult)
    ensures
        agrees(decoded, arithmetic_immediate_form(bytes@)),
{
    if bytes.len() < 2 {
        return Err(IntelError::IncompleteByteStream);
    }
    let operation = decode_op(middle_field(bytes[1]))?;
    decode_immediate_to_register_memory(bytes, operation)
}

/// Decodes an immediate to register or memory, for the given operation.
pub fn decode_immediate_to_register_memory(bytes: &[u8], operation: Operation) -> (decoded:
    IntelResult)
    ensures
        agrees(decoded, immediate_to_register_memory_form(bytes@, operation)),
{
    let mut instruction = Instruction::new();
    instruction.consume(bytes, 2)?;

    proof {
        vstd::arithmetic::power2::lemma2_to64();
    }
    let is_mov = compare_mask(instruction.data[0], 0b1100011, 7);
    instruction.bits.w = bit_set(instruction.data[0], 0);
    instruction.bits.s = !is_mov && bit_set(instruction.data[0], 1);
    instruction.bits.vmod = high_field(instruction.data[1]);
    instruction.bits.rm = low_field(instruction.data[1]);

    let dst = consume_displacement(bytes, &mut instruction)?;
    let src = consume_immediate(bytes, &mut instruction)?;

    instruction.operation = operation;
    instruction.src = src;
    instruction.dst = dst;

    Ok(instruction)
}

/// Decodes a move of an immediate to the register that the opcode names.
pub fn decode_mov_immediate_to_register(bytes: &[u8]) -> (decoded: IntelResult)
    requires
        bytes@.len() > 0,
    ensures
        agrees(
            decoded,
            immediate_to_register_form(
                bytes@,
                Operation::Mov,
                Register::spec_interpret(field_rm(bytes@[0]), bit(bytes@[0], 3)),
                bit(bytes@[0], 3),
            ),
        ),
{
    let peek = bytes[0];
    let w: bool = bit_set(peek, 3);
    let reg: u8 = low_field(peek);
    let register = Register::interpret(reg, w);

    decode_op_immediate_to_register(bytes, Operation::Mov, register, w)
}

/// Decodes an operation with an immediate on the accumulator.
pub fn decode_op_immediate_to_accumulator(bytes: &[u8], operation: Operation) -> (decoded:
    IntelResult)
    requires
        bytes@.len() > 0,
    ensures
        agrees(
            decoded,
            immediate_to_register_form(
                bytes@,
                operation,
                Register::spec_interpret(0, bit(bytes@[0], 0)),
                bit(bytes@[0], 0),
            ),
        ),
{
    let peek = bytes[0];
    let w: bool = bit_set(peek, 0);
    let register = Register::interpret_accumulator(w);

    decode_op_immediate_to_register(bytes, operation, register, w)
}

/// Decodes an operation with an immediate of width `w` on `register`.
pub fn decode_op_immediate_to_register(
    bytes: &[u8],
    operation: Operation,
    register: Register,
    w: bool,
) -> (decoded: IntelResult)
    ensures
        agrees(decoded, immediate_to_register_form(bytes@, operation, register, w)),
{
    let mut instruction = Instruction::new();
    instruction.consume(bytes, 1)?;

    instruction.bits.w = w;
    instruction.bits.s = false;
    instruction.bits.reg = register.reg();

    let src = consume_immediate(bytes, &mut instruction)?;

    instruction.operation = operation;
    instruction.src = src;
    instruction.dst = Operand::Register(register);

    Ok(instruction)
}

/// Decodes a move between the accumulator and a direct address; `direction`
/// says whether the accumulator is the destination.
pub fn decode_mov_accumulator_to_from_memory(bytes: &[u8], direction: bool) -> (decoded:
    IntelResult)
    ensures
        agrees(decoded, accumulator_memory_form(bytes@, direction)),
{
    let mut instruction = Instruction::new();
    instruction.consume(bytes, 3)?;

    instruction.bits.w = bit_set(instruction.data[0], 0);
    let accum = Operand::Register(Register::interpret_accumulator(instruction.bits.w));
    let value = instruction.lastu16();
    let eac = Operand::EAC(EAC::DirectAddress(value));

    let (src, dst) = if direction {
        (eac, accum)
    } else {
        (accum, eac)
    };

    instruction.operation = Operation::Mov;
    instruction.src = src;
    instruction.dst = dst;

    Ok(instruction)
}

/// Decodes a short jump or a loop.
pub fn decode_jump(bytes: &[u8], description: JumpDescription) -> (decoded: IntelResult)
    ensures
        agrees(decoded, jump_form(bytes@, description)),
{
    let mut instruction = Instruction::new();
    instruction.consume(bytes, 2)?;

    let byte = instruction.data[1];
    assert(byte as i8 == jump_offset(byte)) by {
        assert(byte >= 128 ==> byte as i8 == byte - 256) by (bit_vector);
        assert(byte < 128 ==> byte as i8 == byte) by (bit_vector);
    }
    let offset = #[verifier::truncate]
    (byte as i8);

    instruction.operation = Operation::Jump(description);
    instruction.dst = Operand::JumpOffset(offset);

    Ok(instruction)
}

/// A decoded instruction is one to six bytes long, holds the first bytes of
/// the input and zeros after them, and the input is at least as long.
pub proof fn lemma_decoded_length(bytes: Seq<u8>)
    ensures
        decode_spec(bytes) matches Ok(instruction) ==> {
            &&& 1 <= instruction.len <= 6
            &&& instruction.holds(bytes)
            &&& instruction.bytes() == bytes.take(instruction.len as int)
        },
{
    if let Ok(instruction) = decode_spec(bytes) {
        assert(1 <= instruction.len <= 6);
        assert(instruction.len <= bytes.len());
        assert(instruction.data == padded(bytes, instruction.len as int));
        assert(instruction.bytes() =~= bytes.take(instruction.len as int));
    }
}

/// The four opcode families of register or memory to or from a register name
/// their operation in bits 5 to 3: move, add, subtract and compare.
pub proof fn lemma_register_memory_operation(bytes: Seq<u8>)
    requires
        bytes.len() > 0,
    ensures
        bytes[0] / 4 == 0b100010 ==> operation_for(field_reg(bytes[0])) == Some(Operation::Mov),
        bytes[0] / 4 == 0b000000 ==> operation_for(field_reg(bytes[0])) == Some(Operation::Add),
        bytes[0] / 4 == 0b001010 ==> operation_for(field_reg(bytes[0])) == Some(Operation::Sub),
        bytes[0] / 4 == 0b001110 ==> operation_for(field_reg(bytes[0])) == Some(Operation::Cmp),
{
}

/// MOD 00 with R/M 110 is a direct address: the operand holds the word that
/// follows, and no operand with MOD 00 is `bp` alone.
pub proof fn lemma_direct_address(bytes: Seq<u8>, at: int, w: bool)
    ensures
        rm_operand(bytes, at, 0, 6, w) == Operand::EAC(EAC::DirectAddress(word_at(bytes, at))),
        forall|rm: u8|
            !(#[trigger] rm_operand(bytes, at, 0, rm, w) matches Operand::EAC(eac) && eac is Bp),
        forall|rm: u8, offset: u16| !(#[trigger] EAC::spec_new(rm, 0, offset) is Bp),
        forall|offset: u16| #[trigger] EAC::spec_new(6, 0, offset) == EAC::DirectAddress(offset),
{
}

/// In a decoded instruction with the fields MOD 00 and R/M 110 the memory
/// operand is a direct address: the little-endian word of the third and
/// fourth byte.
pub proof fn lemma_decoded_direct_address(bytes: Seq<u8>)
    ensures
        decode_spec(bytes) matches Ok(instruction) ==> (bytes[0] / 4 == 0b100010 || bytes[0] / 4
            == 0b000000 || bytes[0] / 4 == 0b001010 || bytes[0] / 4 == 0b001110 || bytes[0] / 2
            == 0b1100011 || bytes[0] / 4 == 0b100000) && instruction.bits.vmod == 0
            && instruction.bits.rm == 6 ==> {
            let memory = Operand::EAC(EAC::DirectAddress(word_at(bytes, 2)));
            &&& instruction.dst == memory || instruction.src == memory
            &&& !(instruction.dst matches Operand::EAC(eac) && eac is Bp)
            &&& !(instruction.src matches Operand::EAC(eac) && eac is Bp)
        },
{
}

} // verus!

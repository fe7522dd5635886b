//! Instructions, their operations and operands, and how a listing writes them.

use crate::decoding::decode_immediate_to_register_memory;
use crate::decoding::decode_jump;
use crate::decoding::decode_mov_accumulator_to_from_memory;
use crate::decoding::decode_mov_immediate_to_register;
use crate::decoding::decode_op_immediate_to_accumulator;
use crate::decoding::decode_op_immediate_to_register_memory;
use crate::decoding::decode_op_register_memory_to_from_either;
use crate::decoding::decode_spec;
use crate::error::agrees;
use crate::error::IntelError;
use crate::registers::JumpDescription;
use crate::registers::Register;
use crate::registers::EAC;
use crate::text::decimal;
use crate::text::push_decimal;
use vstd::arithmetic::power2::pow2;
use vstd::prelude::*;
use vstd::string::StringExecFns;

verus! {

/// The bit fields of an encoding, as far as the decoder has read them; a field
/// that the form of the instruction does not have is zero.
#[derive(Debug, Clone, Copy, PartialEq, Eq, Structural)]
pub struct InstructionBits {
    pub vmod: u8,
    pub rm: u8,
    pub reg: u8,
    pub s: bool,
    pub w: bool,
    pub d: bool,
    pub v: bool,
    pub z: bool,
}

impl InstructionBits {
    /// The fields with every bit clear.
    pub open spec fn zero() -> InstructionBits {
        InstructionBits {
            vmod: 0,
            rm: 0,
            reg: 0,
            s: false,
            w: false,
            d: false,
            v: false,
            z: false,
        }
    }

    pub fn new() -> (bits: Self)
        ensures
            bits == Self::zero(),
    {
        InstructionBits {
            vmod: 0,
            rm: 0,
            reg: 0,
            s: false,
            w: false,
            d: false,
            v: false,
            z: false,
        }
    }
}

/// What an instruction does.
#[derive(Debug, Clone, Copy, PartialEq, Eq)]
pub enum Operation {
    Invalid,
    Mov,
    Add,
    Sub,
    Cmp,
    Jump(JumpDescription),
}

/// What an instruction works on.
#[derive(Debug, Clone, Copy, PartialEq, Eq)]
pub enum Operand {
    /// No operand.
    Invalid,
    Register(Register),
    Immediate(u16),
    EAC(EAC),
    /// The distance of a jump, counted from the end of the jump instruction.
    JumpOffset(i8),
}

/// A decoded instruction: the bytes it was decoded from, what it does, and on
/// what.
#[derive(Debug, Clone, Copy, PartialEq, Eq)]
pub struct Instruction {
    /// The bytes of the encoding, followed by zeros.
    pub data: [u8; 6],
    /// How many bytes the encoding has.
    pub len: u8,
    pub operation: Operation,
    pub dst: Operand,
    pub src: Operand,
    pub bits: InstructionBits,
}

impl Default for Operation {
    fn default() -> (operation: Self)
        ensures
            operation == Operation::Invalid,
    {
        Operation::Invalid
    }
}

impl Default for Operand {
    fn default() -> (operand: Self)
        ensures
            operand == Operand::Invalid,
    {
        Operand::Invalid
    }
}

impl Default for Instruction {
    fn default() -> (instruction: Self)
        ensures
            instruction == Instruction::empty(),
    {
        Instruction::new()
    }
}

impl Operation {
    /// The mnemonic of the operation.
    pub open spec fn text(self) -> Seq<char> {
        match self {
            Operation::Invalid => "<invalid>"@,
            Operation::Mov => "mov"@,
            Operation::Add => "add"@,
            Operation::Sub => "sub"@,
            Operation::Cmp => "cmp"@,
            Operation::Jump(description) => description.name@,
        }
    }

    /// The mnemonic of the operation.
    pub fn to_string(&self) -> (s: String)
        ensures
            s@ == self.text(),
    {
        let name: &'static str = match self {
            Operation::Invalid => "<invalid>",
            Operation::Mov => "mov",
            Operation::Add => "add",
            Operation::Sub => "sub",
            Operation::Cmp => "cmp",
            Operation::Jump(description) => description.name,
        };
        String::from_str(name)
    }
}

/// How a listing writes the target of a jump with offset `offset`: relative
/// to the jump instruction itself, which is two bytes long.
pub open spec fn jump_target_text(offset: i8) -> Seq<char> {
    let distance = offset + 2;
    if distance > 0 {
        "$+"@ + decimal(distance as nat) + "+0"@
    } else if distance == 0 {
        "$+0"@
    } else {
        "$-"@ + decimal((-distance) as nat) + "+0"@
    }
}

impl Operand {
    /// Whether there is an operand.
    pub open spec fn spec_is_valid(self) -> bool {
        !(self is Invalid)
    }

    /// Whether the operand says how wide it is: only a register does.
    pub open spec fn spec_has_size(self) -> bool {
        self is Register
    }

    /// The operand as the listing writes it.
    pub open spec fn text(self) -> Seq<char> {
        match self {
            Operand::Invalid => "<invalid>"@,
            Operand::Register(register) => register.spec_name()@,
            Operand::Immediate(value) => decimal(value as nat),
            Operand::EAC(eac) => eac.text(),
            Operand::JumpOffset(offset) => jump_target_text(offset),
        }
    }

    pub fn is_valid(&self) -> (valid: bool)
        ensures
            valid == self.spec_is_valid(),
    {
        !matches!(self, Operand::Invalid)
    }

    pub fn has_size(&self) -> (sized: bool)
        ensures
            sized == self.spec_has_size(),
    {
        match self {
            Operand::Invalid => false,
            Operand::Register(_) => true,
            Operand::Immediate(_) => false,
            Operand::EAC(_) => false,
            Operand::JumpOffset(_) => false,
        }
    }

    /// The operand as the listing writes it.
    pub fn to_string(&self) -> (s: String)
        ensures
            s@ == self.text(),
    {
        match self {
            Operand::Invalid => String::from_str("<invalid>"),
            Operand::Register(register) => register.to_string(),
            Operand::Immediate(value) => {
                let mut s = String::new();
                push_decimal(&mut s, *value);
                proof {
                    assert(s@ =~= decimal(*value as nat));
                }
                s
            },
            Operand::EAC(eac) => eac.to_string(),
            Operand::JumpOffset(offset) => {
                let distance: i16 = (*offset as i16) + 2;
                if distance > 0 {
                    let mut s = String::from_str("$+");
                    push_decimal(&mut s, distance as u16);
                    s.append("+0");
                    s
                } else if distance == 0 {
                    String::from_str("$+0")
                } else {
                    let mut s = String::from_str("$-");
                    push_decimal(&mut s, (-distance) as u16);
                    s.append("+0");
                    s
                }
            },
        }
    }
}

/// The first `len` bytes of `bytes`, followed by zeros up to six.
pub open spec fn padded(bytes: Seq<u8>, len: int) -> [u8; 6] {
    [
        if 0 < len { bytes[0] } else { 0u8 },
        if 1 < len { bytes[1] } else { 0u8 },
        if 2 < len { bytes[2] } else { 0u8 },
        if 3 < len { bytes[3] } else { 0u8 },
        if 4 < len { bytes[4] } else { 0u8 },
        if 5 < len { bytes[5] } else { 0u8 },
    ]
}

impl Instruction {
    /// The instruction that nothing has been decoded into yet.
    pub open spec fn empty() -> Instruction {
        Instruction {
            data: padded(Seq::empty(), 0),
            len: 0,
            operation: Operation::Invalid,
            dst: Operand::Invalid,
            src: Operand::Invalid,
            bits: InstructionBits::zero(),
        }
    }

    /// The bytes of the encoding.
    pub open spec fn bytes(self) -> Seq<u8> {
        self.data@.take(self.len as int)
    }

    /// Whether the instruction holds the first `len` bytes of `bytes`, and
    /// zeros after them.
    pub open spec fn holds(self, bytes: Seq<u8>) -> bool {
        &&& self.len <= 6
        &&& self.len <= bytes.len()
        &&& self.data == padded(bytes, self.len as int)
    }

    /// The instruction as the listing writes it: the mnemonic and the
    /// destination; then the source, if there is one. Where neither operand is
    /// a register, `byte` or `word` stands before the operands, by the width
    /// bit.
    pub open spec fn text(self) -> Seq<char> {
        if !self.src.spec_is_valid() {
            self.operation.text() + " "@ + self.dst.text()
        } else if !self.src.spec_has_size() && !self.dst.spec_has_size() {
            self.operation.text() + " "@ + (if self.bits.w {
                "word"@
            } else {
                "byte"@
            }) + " "@ + self.dst.text() + ", "@ + self.src.text()
        } else {
            self.operation.text() + " "@ + self.dst.text() + ", "@ + self.src.text()
        }
    }

    /// Decodes the instruction at the start of `bytes`.
    ///
    /// A decoded instruction is one to six bytes long and holds the bytes it
    /// was decoded from, so that the next instruction starts `len` bytes on.
    pub fn decode(bytes: &[u8]) -> (decoded: Result<Self, IntelError>)
        ensures
            agrees(decoded, decode_spec(bytes@)),
            decoded matches Ok(instruction) ==> 1 <= instruction.len <= 6 && instruction.holds(
                bytes@,
            ) && instruction.bytes() == bytes@.take(instruction.len as int),
    {
        if bytes.len() == 0 {
            return Err(IntelError::IncompleteByteStream);
        }
        let peek = bytes[0];
        proof {
            vstd::arithmetic::power2::lemma2_to64();
            crate::decoding::lemma_decoded_length(bytes@);
        }

        if compare_mask(peek, 0b100010, 6) {
            return decode_op_register_memory_to_from_either(bytes);
        } else if compare_mask(peek, 0b000000, 6) {
            return decode_op_register_memory_to_from_either(bytes);
        } else if compare_mask(peek, 0b001010, 6) {
            return decode_op_register_memory_to_from_either(bytes);
        } else if compare_mask(peek, 0b001110, 6) {
            return decode_op_register_memory_to_from_either(bytes);
        }
        if compare_mask(peek, 0b1011, 4) {
            return decode_mov_immediate_to_register(bytes);
        }
        if compare_mask(peek, 0b1100011, 7) {
            return decode_immediate_to_register_memory(bytes, Operation::Mov);
        } else if compare_mask(peek, 0b100000, 6) {
            return decode_op_immediate_to_register_memory(bytes);
        }
        if compare_mask(peek, 0b1010000, 7) {
            return decode_mov_accumulator_to_from_memory(bytes, true);
        } else if compare_mask(peek, 0b1010001, 7) {
            return decode_mov_accumulator_to_from_memory(bytes, false);
        } else if compare_mask(peek, 0b0000010, 7) {
            return decode_op_immediate_to_accumulator(bytes, Operation::Add);
        } else if compare_mask(peek, 0b0010110, 7) {
            return decode_op_immediate_to_accumulator(bytes, Operation::Sub);
        } else if compare_mask(peek, 0b0011110, 7) {
            return decode_op_immediate_to_accumulator(bytes, Operation::Cmp);
        }
        match JumpDescription::find(peek) {
            Some(description) => decode_jump(bytes, description),
            None => Err(IntelError::UnsupportedOpcode(peek)),
        }
    }

    pub fn new() -> (instruction: Self)
        ensures
            instruction == Self::empty(),
    {
        let instruction = Instruction {
            data: [0u8; 6],
            len: 0,
            operation: Operation::Invalid,
            dst: Operand::Invalid,
            src: Operand::Invalid,
            bits: InstructionBits::new(),
        };
        proof {
            assert(instruction.data =~= padded(Seq::empty(), 0));
        }
        instruction
    }

    /// The length of the encoding in bytes.
    pub fn len(&self) -> (n: usize)
        ensures
            n == self.len,
    {
        self.len as usize
    }

    /// Takes the next `amount` bytes of `bytes` into the instruction: those
    /// that follow the bytes it holds already.
    pub fn consume(&mut self, bytes: &[u8], amount: usize) -> (done: Result<(), IntelError>)
        ensures
            old(self).len + amount > bytes@.len() ==> done is Err && done->Err_0@
                == crate::error::ErrorView::IncompleteByteStream,
            old(self).len + amount <= bytes@.len() && old(self).len + amount > 6 ==> done is Err
                && done->Err_0@ == crate::error::ErrorView::InstructionOverflow,
            old(self).len + amount <= bytes@.len() && old(self).len + amount <= 6 ==> done is Ok,
            done is Err ==> *final(self) == *old(self),
            done is Ok && old(self).holds(bytes@) ==> final(self).holds(bytes@),
            done is Ok ==> {
                &&& final(self).len == old(self).len + amount
                &&& final(self).operation == old(self).operation
                &&& final(self).dst == old(self).dst
                &&& final(self).src == old(self).src
                &&& final(self).bits == old(self).bits
                &&& forall|i: int|
                    0 <= i < 6 ==> #[trigger] final(self).data[i] == if old(self).len <= i < old(
                        self,
                    ).len + amount {
                        bytes@[i]
                    } else {
                        old(self).data[i]
                    }
            },
    {
        let start = self.len();
        if start > bytes.len() || amount > bytes.len() - start {
            return Err(IntelError::IncompleteByteStream);
        }
        let end = start + amount;
        if end > 6 {
            return Err(IntelError::InstructionOverflow);
        }
        let mut i = start;
        while i < end
            invariant
                start <= i <= end <= 6,
                end <= bytes@.len(),
                start == old(self).len,
                self.len == old(self).len,
                self.operation == old(self).operation,
                self.dst == old(self).dst,
                self.src == old(self).src,
                self.bits == old(self).bits,
                forall|j: int|
                    0 <= j < 6 ==> #[trigger] self.data[j] == if start <= j < i {
                        bytes@[j]
                    } else {
                        old(self).data[j]
                    },
            decreases end - i,
        {
            self.data[i] = bytes[i];
            i += 1;
        }
        self.len = end as u8;
        proof {
            if old(self).holds(bytes@) {
                assert(self.data =~= padded(bytes@, end as int));
            }
        }
        Ok(())
    }

    /// The last byte taken.
    pub fn lastu8(&self) -> (byte: u8)
        requires
            1 <= self.len <= 6,
        ensures
            byte == self.data[self.len - 1],
    {
        self.data[self.len() - 1]
    }

    /// The last two bytes taken, as a little-endian word.
    pub fn lastu16(&self) -> (word: u16)
        requires
            2 <= self.len <= 6,
        ensures
            word == self.data[self.len - 2] + 256 * self.data[self.len - 1],
    {
        let len = self.len();
        let low: u16 = self.data[len - 2] as u16;
        let high: u16 = self.data[len - 1] as u16;
        assert(low | (high << 8) == low + 256 * high) by (bit_vector)
            requires
                low < 256,
                high < 256,
        ;
        low | (high << 8)
    }

    /// The instruction as the listing writes it.
    pub fn to_string(&self) -> (s: String)
        ensures
            s@ == self.text(),
    {
        let mut s = self.operation.to_string();
        s.append(" ");
        if !self.src.is_valid() {
            s.append(self.dst.to_string().as_str());
            return s;
        }
        if !self.src.has_size() && !self.dst.has_size() {
            s.append(if self.bits.w { "word" } else { "byte" });
            s.append(" ");
        }
        s.append(self.dst.to_string().as_str());
        s.append(", ");
        s.append(self.src.to_string().as_str());
        proof {
            assert(s@ =~= self.text());
        }
        s
    }
}

/// Whether the first `mask_len` bits of `value` are the bits of `mask`.
pub fn compare_mask(value: u8, mask: u8, mask_len: u8) -> (same: bool)
    requires
        1 <= mask_len <= 8,
    ensures
        same == (value as nat / pow2((8 - mask_len) as nat) == mask),
{
    proof {
        vstd::bits::lemma_u8_shr_is_div(value, (8 - mask_len) as u8);
    }
    let shifted = value >> (8 - mask_len);
    shifted == mask
}

} // verus!

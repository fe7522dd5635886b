use intel8086::disassemble;
use intel8086::error::IntelError;
use intel8086::instructions::Instruction;
use intel8086::instructions::Operand;
use intel8086::instructions::Operation;
use intel8086::registers::Jump;
use intel8086::registers::JumpDescription;
use intel8086::registers::Register;
use intel8086::registers::EAC;
use intel8086::to_asm;

fn reg(name: &str) -> Operand {
    Operand::Register(Register::find(name).unwrap())
}

fn text_of(bytes: &[u8]) -> String {
    Instruction::decode(bytes).unwrap().to_string()
}

#[test]
fn decode_register_to_register_move() {
    let instruction = Instruction::decode(&[0x89, 0xD8]).unwrap();
    assert_eq!(instruction.len(), 2);
    assert_eq!(instruction.data, [0x89, 0xD8, 0, 0, 0, 0]);
    assert_eq!(instruction.operation, Operation::Mov);
    assert_eq!(instruction.dst, reg("ax"));
    assert_eq!(instruction.src, reg("bx"));
    assert!(instruction.bits.w);
    assert!(!instruction.bits.d);
    assert_eq!(instruction.bits.vmod, 3);
    assert_eq!(instruction.bits.reg, 3);
    assert_eq!(instruction.bits.rm, 0);
    assert_eq!(instruction.to_string(), "mov ax, bx");
}

#[test]
fn decode_direction_bit_swaps_the_operands() {
    let instruction = Instruction::decode(&[0x8B, 0xD8]).unwrap();
    assert_eq!(instruction.dst, reg("bx"));
    assert_eq!(instruction.src, reg("ax"));
    assert!(instruction.bits.d);
}

#[test]
fn decode_byte_registers_follow_the_encoding() {
    assert_eq!(text_of(&[0x88, 0xC8]), "mov al, cl");
    assert_eq!(text_of(&[0x88, 0xE5]), "mov ch, ah");
    let names = ["al", "cl", "dl", "bl", "ah", "ch", "dh", "bh"];
    for (i, name) in names.iter().enumerate() {
        let register = Register::interpret(i as u8, false);
        assert_eq!(register.name(), *name);
        assert_eq!(register.len(), 1);
        assert_eq!(register.reg(), i as u8);
    }
    let names = ["ax", "cx", "dx", "bx", "sp", "bp", "si", "di"];
    for (i, name) in names.iter().enumerate() {
        let register = Register::interpret(i as u8, true);
        assert_eq!(register.name(), *name);
        assert_eq!(register.len(), 2);
        assert_eq!(register.reg(), i as u8);
    }
}

#[test]
fn decode_direct_address_is_never_bp() {
    // MOD 00, R/M 110: the word that follows is an address.
    let instruction = Instruction::decode(&[0x8B, 0x1E, 0x34, 0x12]).unwrap();
    assert_eq!(instruction.len(), 4);
    assert_eq!(instruction.src, Operand::EAC(EAC::DirectAddress(0x1234)));
    assert_eq!(instruction.to_string(), "mov bx, [4660]");
    let instruction = Instruction::decode(&[0x8B, 0x1E, 0x00, 0x00]).unwrap();
    assert_eq!(instruction.src, Operand::EAC(EAC::DirectAddress(0)));
    assert_eq!(EAC::new(6, 0, 0), EAC::DirectAddress(0));
    assert_eq!(EAC::new(6, 0, 77), EAC::DirectAddress(77));
    assert_eq!(EAC::new(6, 1, 0), EAC::Bp(0));
    assert_eq!(EAC::new(6, 2, 500), EAC::Bp(500));
}

#[test]
fn eac_new_follows_the_rm_field() {
    assert_eq!(EAC::new(0, 0, 0), EAC::BxSi(0));
    assert_eq!(EAC::new(1, 1, 4), EAC::BxDi(4));
    assert_eq!(EAC::new(2, 2, 300), EAC::BpSi(300));
    assert_eq!(EAC::new(3, 0, 0), EAC::BpDi(0));
    assert_eq!(EAC::new(4, 0, 0), EAC::Si(0));
    assert_eq!(EAC::new(5, 0, 0), EAC::Di(0));
    assert_eq!(EAC::new(7, 1, 9), EAC::Bx(9));
}

#[test]
fn decode_displacements() {
    assert_eq!(text_of(&[0x8A, 0x00]), "mov al, [bx + si]");
    assert_eq!(text_of(&[0x8B, 0x1B]), "mov bx, [bp + di]");
    assert_eq!(text_of(&[0x8B, 0x56, 0x00]), "mov dx, [bp]");
    assert_eq!(text_of(&[0x8A, 0x60, 0x04]), "mov ah, [bx + si + 4]");
    assert_eq!(text_of(&[0x8A, 0x80, 0x87, 0x13]), "mov al, [bx + si + 4999]");
    assert_eq!(text_of(&[0x89, 0x09]), "mov [bx + di], cx");
    assert_eq!(text_of(&[0x88, 0x0A]), "mov [bp + si], cl");
    assert_eq!(text_of(&[0x88, 0x6E, 0x00]), "mov [bp], ch");
    // A one-byte displacement is taken as unsigned.
    let instruction = Instruction::decode(&[0x8B, 0x47, 0xFF]).unwrap();
    assert_eq!(instruction.src, Operand::EAC(EAC::Bx(0x00FF)));
    assert_eq!(instruction.to_string(), "mov ax, [bx + 255]");
}

#[test]
fn decode_immediate_to_register() {
    assert_eq!(text_of(&[0xB8, 0x34, 0x12]), "mov ax, 4660");
    assert_eq!(text_of(&[0xB1, 0x0C]), "mov cl, 12");
    assert_eq!(text_of(&[0xB5, 0xF4]), "mov ch, 244");
    assert_eq!(text_of(&[0xBA, 0x94, 0xF0]), "mov dx, 61588");
    let instruction = Instruction::decode(&[0xB9, 0x0C, 0x00]).unwrap();
    assert_eq!(instruction.len(), 3);
    assert_eq!(instruction.dst, reg("cx"));
    assert_eq!(instruction.src, Operand::Immediate(12));
    assert_eq!(instruction.bits.reg, 1);
    assert!(instruction.bits.w);
    assert!(!instruction.bits.s);
}

#[test]
fn decode_immediate_to_memory() {
    assert_eq!(text_of(&[0xC6, 0x03, 0x07]), "mov byte [bp + di], 7");
    assert_eq!(text_of(&[0xC7, 0x85, 0x85, 0x03, 0x5B, 0x01]), "mov word [di + 901], 347");
    assert_eq!(text_of(&[0xC7, 0x06, 0xE8, 0x03, 0x01, 0x00]), "mov word [1000], 1");
    // A move has no sign bit: the immediate of a word move is a word.
    let instruction = Instruction::decode(&[0xC7, 0x07, 0xCD, 0xAB]).unwrap();
    assert_eq!(instruction.len(), 4);
    assert_eq!(instruction.src, Operand::Immediate(0xABCD));
    assert!(!instruction.bits.s);
}

#[test]
fn decode_arithmetic_with_immediate() {
    // S set, W set: one byte, sign-extended.
    let instruction = Instruction::decode(&[0x83, 0xC6, 0x02]).unwrap();
    assert_eq!(instruction.operation, Operation::Add);
    assert_eq!(instruction.src, Operand::Immediate(2));
    assert_eq!(instruction.to_string(), "add si, 2");
    let instruction = Instruction::decode(&[0x83, 0xEB, 0xFB]).unwrap();
    assert_eq!(instruction.operation, Operation::Sub);
    assert_eq!(instruction.src, Operand::Immediate(0xFFFB));
    assert!(instruction.bits.s);
    // S clear, W set: two bytes.
    let instruction = Instruction::decode(&[0x81, 0xC5, 0x03, 0x04]).unwrap();
    assert_eq!(instruction.src, Operand::Immediate(0x0403));
    assert_eq!(instruction.to_string(), "add bp, 1027");
    // W clear: one byte.
    assert_eq!(text_of(&[0x80, 0x07, 0x22]), "add byte [bx], 34");
    assert_eq!(text_of(&[0x83, 0x82, 0xE8, 0x03, 0x1D]), "add word [bp + si + 1000], 29");
    assert_eq!(text_of(&[0x83, 0x3E, 0xE2, 0x12, 0x1D]), "cmp word [4834], 29");
    // The operation field 001 stands for a move here.
    let instruction = Instruction::decode(&[0x81, 0xC8, 0x01, 0x00]).unwrap();
    assert_eq!(instruction.operation, Operation::Mov);
}

#[test]
fn decode_accumulator_forms() {
    assert_eq!(text_of(&[0xA1, 0xFB, 0x09]), "mov ax, [2555]");
    assert_eq!(text_of(&[0xA0, 0x10, 0x00]), "mov al, [16]");
    assert_eq!(text_of(&[0xA3, 0xFA, 0x09]), "mov [2554], ax");
    assert_eq!(text_of(&[0xA2, 0x0F, 0x00]), "mov [15], al");
    assert_eq!(text_of(&[0x05, 0xE8, 0x03]), "add ax, 1000");
    assert_eq!(text_of(&[0x04, 0xE2]), "add al, 226");
    assert_eq!(text_of(&[0x2D, 0xE8, 0x03]), "sub ax, 1000");
    assert_eq!(text_of(&[0x2C, 0x09]), "sub al, 9");
    assert_eq!(text_of(&[0x3D, 0xE8, 0x03]), "cmp ax, 1000");
    assert_eq!(text_of(&[0x3C, 0x09]), "cmp al, 9");
}

#[test]
fn decode_arithmetic_between_registers_and_memory() {
    assert_eq!(text_of(&[0x03, 0x18]), "add bx, [bx + si]");
    assert_eq!(text_of(&[0x01, 0xD8]), "add ax, bx");
    assert_eq!(text_of(&[0x29, 0xD8]), "sub ax, bx");
    assert_eq!(text_of(&[0x39, 0xD8]), "cmp ax, bx");
    assert_eq!(text_of(&[0x2B, 0x5E, 0x00]), "sub bx, [bp]");
    assert_eq!(text_of(&[0x3B, 0x4F, 0x02]), "cmp cx, [bx + 2]");
}

#[test]
fn decode_jumps_and_loops() {
    let table: [(u8, Jump, &str); 21] = [
        (0x70, Jump::JO, "jo"),
        (0x71, Jump::JNO, "jno"),
        (0x72, Jump::JB, "jb"),
        (0x73, Jump::JNB, "jnb"),
        (0x74, Jump::JE, "je"),
        (0x75, Jump::JNE, "jne"),
        (0x76, Jump::JBE, "jbe"),
        (0x77, Jump::JNBE, "jnbe"),
        (0x78, Jump::JS, "js"),
        (0x79, Jump::JNS, "jns"),
        (0x7A, Jump::JP, "jp"),
        (0x7B, Jump::JNP, "jnp"),
        (0x7C, Jump::JL, "jl"),
        (0x7D, Jump::JNL, "jnl"),
        (0x7E, Jump::JLE, "jle"),
        (0x7F, Jump::JNLE, "jnle"),
        (0xE3, Jump::JCXZ, "jcxz"),
        (0xEB, Jump::JMP, "jmp"),
        (0xE0, Jump::LOOPNZ, "loopnz"),
        (0xE1, Jump::LOOPZ, "loopz"),
        (0xE2, Jump::LOOP, "loop"),
    ];
    for (opcode, jump, name) in table {
        let description = JumpDescription::find(opcode).unwrap();
        assert_eq!(description, JumpDescription::new(opcode, jump, name));
        let instruction = Instruction::decode(&[opcode, 0xFC]).unwrap();
        assert_eq!(instruction.len(), 2);
        assert_eq!(instruction.operation, Operation::Jump(description));
        assert_eq!(instruction.dst, Operand::JumpOffset(-4));
        assert_eq!(instruction.src, Operand::Invalid);
        assert_eq!(instruction.to_string(), format!("{} $-2+0", name));
    }
    assert!(JumpDescription::find(0x6F).is_none());
    assert!(JumpDescription::find(0xE4).is_none());
}

#[test]
fn jump_targets_are_relative_to_the_jump() {
    assert_eq!(Operand::JumpOffset(2).to_string(), "$+4+0");
    assert_eq!(Operand::JumpOffset(-1).to_string(), "$+1+0");
    assert_eq!(Operand::JumpOffset(-2).to_string(), "$+0");
    assert_eq!(Operand::JumpOffset(-3).to_string(), "$-1+0");
    assert_eq!(Operand::JumpOffset(-128).to_string(), "$-126+0");
    assert_eq!(Operand::JumpOffset(127).to_string(), "$+129+0");
    assert_eq!(Operand::JumpOffset(0).to_string(), "$+2+0");
}

#[test]
fn operand_texts() {
    assert_eq!(Operand::Invalid.to_string(), "<invalid>");
    assert_eq!(Operand::Immediate(0).to_string(), "0");
    assert_eq!(Operand::Immediate(65535).to_string(), "65535");
    assert_eq!(Operand::Immediate(1000).to_string(), "1000");
    assert_eq!(reg("si").to_string(), "si");
    assert_eq!(Operand::EAC(EAC::DirectAddress(0)).to_string(), "[0]");
    assert_eq!(Operand::EAC(EAC::BpSi(0)).to_string(), "[bp + si]");
    assert_eq!(Operand::EAC(EAC::BpDi(65535)).to_string(), "[bp + di + 65535]");
    assert_eq!(Operand::EAC(EAC::Si(1)).to_string(), "[si + 1]");
    assert_eq!(Operand::EAC(EAC::Di(10)).to_string(), "[di + 10]");
    assert_eq!(Operation::Invalid.to_string(), "<invalid>");
    assert_eq!(Operation::Cmp.to_string(), "cmp");
    assert!(!Operand::Invalid.is_valid());
    assert!(Operand::Immediate(1).is_valid());
    assert!(reg("al").has_size());
    assert!(!Operand::Immediate(1).has_size());
    assert!(!Operand::EAC(EAC::Bx(0)).has_size());
    assert!(!Operand::JumpOffset(0).has_size());
    assert!(!Operand::Invalid.has_size());
    assert_eq!(Operand::default(), Operand::Invalid);
    assert_eq!(Operation::default(), Operation::Invalid);
    assert_eq!(Instruction::default(), Instruction::new());
    assert_eq!(Instruction::new().to_string(), "<invalid> <invalid>");
}

#[test]
fn decode_errors() {
    assert!(matches!(Instruction::decode(&[]), Err(IntelError::IncompleteByteStream)));
    assert!(matches!(Instruction::decode(&[0x89]), Err(IntelError::IncompleteByteStream)));
    assert!(matches!(Instruction::decode(&[0xB8, 0x34]), Err(IntelError::IncompleteByteStream)));
    assert!(matches!(Instruction::decode(&[0x8B, 0x1E, 0x34]), Err(IntelError::IncompleteByteStream)));
    assert!(
        matches!(
            Instruction::decode(&[0xC7, 0x85, 0x85, 0x03, 0x5B]),
            Err(IntelError::IncompleteByteStream)
        )
    );
    assert!(matches!(Instruction::decode(&[0x74]), Err(IntelError::IncompleteByteStream)));
    assert!(matches!(Instruction::decode(&[0xA1, 0x00]), Err(IntelError::IncompleteByteStream)));
    assert!(matches!(Instruction::decode(&[0x80]), Err(IntelError::IncompleteByteStream)));
    assert!(matches!(Instruction::decode(&[0xFF, 0x00]), Err(IntelError::UnsupportedOpcode(0xFF))));
    assert!(matches!(Instruction::decode(&[0x90]), Err(IntelError::UnsupportedOpcode(0x90))));
    assert!(matches!(Instruction::decode(&[0xAB]), Err(IntelError::UnsupportedOpcode(0xAB))));
    // The operation field 100 of the second byte is unassigned.
    assert!(
        matches!(
            Instruction::decode(&[0x81, 0xE0, 0x01, 0x00]),
            Err(IntelError::UnsupportedOperation(0b100))
        )
    );
    // The operation is looked at before the rest is read.
    assert!(matches!(Instruction::decode(&[0x81, 0xF0]), Err(IntelError::UnsupportedOperation(0b110))));
}

#[test]
fn consume_reports_what_is_missing() {
    let bytes = [1u8, 2, 3, 4, 5, 6, 7, 8];
    let mut instruction = Instruction::new();
    assert!(instruction.consume(&bytes, 2).is_ok());
    assert_eq!(instruction.len(), 2);
    assert_eq!(instruction.lastu8(), 2);
    assert_eq!(instruction.lastu16(), 0x0201);
    assert!(instruction.consume(&bytes, 4).is_ok());
    assert_eq!(instruction.data, [1, 2, 3, 4, 5, 6]);
    assert_eq!(instruction.lastu16(), 0x0605);
    assert!(matches!(instruction.consume(&bytes, 1), Err(IntelError::InstructionOverflow)));
    assert!(matches!(instruction.consume(&bytes, 3), Err(IntelError::IncompleteByteStream)));
    assert_eq!(instruction.len(), 6);
    assert!(instruction.consume(&bytes, 0).is_ok());
    let mut instruction = Instruction::new();
    assert!(matches!(instruction.consume(&bytes[..3], 4), Err(IntelError::IncompleteByteStream)));
    assert!(matches!(instruction.consume(&bytes, 7), Err(IntelError::InstructionOverflow)));
    assert_eq!(instruction, Instruction::new());
}

#[test]
fn disassemble_covers_the_input() {
    let bytes = [0x89, 0xD8, 0xB8, 0x34, 0x12, 0x01, 0xD8, 0x39, 0xD8, 0x75, 0xFC];
    let instructions = disassemble(&bytes).unwrap();
    assert_eq!(instructions.len(), 5);
    let mut joined: Vec<u8> = Vec::new();
    for instruction in &instructions {
        joined.extend_from_slice(&instruction.data[..instruction.len()]);
    }
    assert_eq!(joined, bytes);
    assert_eq!(
        to_asm(&instructions),
        "bits 16\n\nmov ax, bx\nmov ax, 4660\nadd ax, bx\ncmp ax, bx\njne $-2+0\n"
    );
    assert!(disassemble(&[]).unwrap().is_empty());
    assert_eq!(to_asm(&Vec::new()), "bits 16\n\n");
    assert!(matches!(disassemble(&[0x89, 0xD8, 0xB8]), Err(IntelError::IncompleteByteStream)));
    assert!(matches!(disassemble(&[0x89, 0xD8, 0x0F]), Err(IntelError::UnsupportedOpcode(0x0F))));
}

#[test]
fn find_knows_every_register() {
    let names = [
        "ax", "cx", "dx", "bx", "sp", "bp", "si", "di", "al", "cl", "dl", "bl", "ah", "ch", "dh",
        "bh", "ip",
    ];
    for name in names {
        let register = Register::find(name).unwrap();
        assert_eq!(register.name(), name);
        assert_eq!(register.to_string(), name);
    }
    assert_eq!(Register::find("ip").unwrap().reg(), 8);
    assert_eq!(Register::find("ip").unwrap().len(), 2);
    assert_eq!(Register::find("bx").unwrap(), Register::interpret(3, true));
    assert_eq!(Register::find("dh").unwrap(), Register::interpret(6, false));
    assert_eq!(Register::interpret_accumulator(true), Register::find("ax").unwrap());
    assert_eq!(Register::interpret_accumulator(false), Register::find("al").unwrap());
    assert_eq!(Register::instruction_pointer(), Register::find("ip").unwrap());
    assert!(Register::find("").is_none());
    assert!(Register::find("a").is_none());
    assert!(Register::find("AX").is_none());
    assert!(Register::find("axx").is_none());
    assert!(Register::find("xa").is_none());
    assert!(Register::find("flags").is_none());
}

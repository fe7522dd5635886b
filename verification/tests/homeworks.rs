use intel8086::cpu::CPUFlags;
use intel8086::disassemble;
use intel8086::simulate;
use intel8086::to_asm;
use intel8086::SimulationResult;

/// Disassembles `bytes` and holds the listing against `lines`; the
/// instructions must hold the bytes they were decoded from.
fn check_listing(bytes: &[u8], lines: &[&str]) {
    let instructions = disassemble(bytes).unwrap();
    let mut want = String::from("bits 16\n\n");
    for line in lines {
        want.push_str(line);
        want.push('\n');
    }
    assert_eq!(to_asm(&instructions), want);
    let mut encoded: Vec<u8> = Vec::new();
    for instruction in &instructions {
        encoded.extend_from_slice(&instruction.data[..instruction.len()]);
    }
    assert_eq!(encoded, bytes);
}

/// The registers `ax`, `cx`, `dx`, `bx`, `sp`, `bp`, `si`, `di`, `ip`.
fn registers(result: &SimulationResult) -> [u16; 9] {
    let cpu = &result.cpu;
    [cpu.ax(), cpu.cx(), cpu.dx(), cpu.bx(), cpu.sp(), cpu.bp(), cpu.si(), cpu.di(), cpu.ip()]
}

#[test]
fn homework1() {
    // A single move between registers.
    check_listing(&[0x89, 0xD9], &["mov cx, bx"]);
    // Many moves between registers.
    check_listing(
        &[
            0x89, 0xD9, 0x88, 0xE5, 0x89, 0xDA, 0x89, 0xDE, 0x89, 0xFB, 0x88, 0xC8, 0x88, 0xED,
            0x89, 0xC3, 0x89, 0xF3, 0x89, 0xFC, 0x89, 0xC5,
        ],
        &[
            "mov cx, bx",
            "mov ch, ah",
            "mov dx, bx",
            "mov si, bx",
            "mov bx, di",
            "mov al, cl",
            "mov ch, ch",
            "mov bx, ax",
            "mov bx, si",
            "mov sp, di",
            "mov bp, ax",
        ],
    );
}

#[test]
fn homework2() {
    // Moves with immediates and with memory operands.
    check_listing(
        &[
            0x89, 0xDE, 0x88, 0xC6, 0xB1, 0x0C, 0xB5, 0xF4, 0xB9, 0x0C, 0x00, 0xB9, 0xF4, 0xFF,
            0xBA, 0x6C, 0x0F, 0xBA, 0x94, 0xF0, 0x8A, 0x00, 0x8B, 0x1B, 0x8B, 0x56, 0x00, 0x8A,
            0x60, 0x04, 0x8A, 0x80, 0x87, 0x13, 0x89, 0x09, 0x88, 0x0A, 0x88, 0x6E, 0x00,
        ],
        &[
            "mov si, bx",
            "mov dh, al",
            "mov cl, 12",
            "mov ch, 244",
            "mov cx, 12",
            "mov cx, 65524",
            "mov dx, 3948",
            "mov dx, 61588",
            "mov al, [bx + si]",
            "mov bx, [bp + di]",
            "mov dx, [bp]",
            "mov ah, [bx + si + 4]",
            "mov al, [bx + si + 4999]",
            "mov [bx + di], cx",
            "mov [bp + si], cl",
            "mov [bp], ch",
        ],
    );
}

#[test]
fn homework3() {
    // Additions, subtractions, comparisons and conditional jumps.
    check_listing(
        &[
            0x03, 0x18, 0x03, 0x5E, 0x00, 0x83, 0xC6, 0x02, 0x83, 0xC5, 0x02, 0x83, 0xC1, 0x08,
            0x03, 0x4F, 0x02, 0x02, 0x7A, 0x04, 0x03, 0x7B, 0x06, 0x01, 0x18, 0x01, 0x5E, 0x00,
            0x01, 0x4F, 0x02, 0x00, 0x7A, 0x04, 0x01, 0x7B, 0x06, 0x80, 0x07, 0x22, 0x83, 0x82,
            0xE8, 0x03, 0x1D, 0x03, 0x46, 0x00, 0x02, 0x00, 0x01, 0xD8, 0x00, 0xE0, 0x05, 0xE8,
            0x03, 0x04, 0xE2, 0x04, 0x09,
        ],
        &[
            "add bx, [bx + si]",
            "add bx, [bp]",
            "add si, 2",
            "add bp, 2",
            "add cx, 8",
            "add cx, [bx + 2]",
            "add bh, [bp + si + 4]",
            "add di, [bp + di + 6]",
            "add [bx + si], bx",
            "add [bp], bx",
            "add [bx + 2], cx",
            "add [bp + si + 4], bh",
            "add [bp + di + 6], di",
            "add byte [bx], 34",
            "add word [bp + si + 1000], 29",
            "add ax, [bp]",
            "add al, [bx + si]",
            "add ax, bx",
            "add al, ah",
            "add ax, 1000",
            "add al, 226",
            "add al, 9",
        ],
    );
    check_listing(
        &[
            0x2B, 0x18, 0x83, 0xEE, 0x02, 0x29, 0x5E, 0x00, 0x80, 0x2F, 0x22, 0x83, 0x29, 0x1D,
            0x29, 0xD8, 0x2D, 0xE8, 0x03, 0x2C, 0x09, 0x3B, 0x18, 0x83, 0xFE, 0x02, 0x39, 0x5E,
            0x00, 0x80, 0x3F, 0x22, 0x83, 0x3E, 0xE2, 0x12, 0x1D, 0x39, 0xD8, 0x3D, 0xE8, 0x03,
            0x3C, 0x09,
        ],
        &[
            "sub bx, [bx + si]",
            "sub si, 2",
            "sub [bp], bx",
            "sub byte [bx], 34",
            "sub word [bx + di], 29",
            "sub ax, bx",
            "sub ax, 1000",
            "sub al, 9",
            "cmp bx, [bx + si]",
            "cmp si, 2",
            "cmp [bp], bx",
            "cmp byte [bx], 34",
            "cmp word [4834], 29",
            "cmp ax, bx",
            "cmp ax, 1000",
            "cmp al, 9",
        ],
    );
    check_listing(
        &[
            0x75, 0x02, 0x75, 0xFC, 0x75, 0xFA, 0x75, 0xFC, 0x74, 0xFE, 0x7C, 0xFC, 0x7E, 0xFA,
            0x72, 0xF8, 0x76, 0xF6, 0x7A, 0xF4, 0x70, 0xF2, 0x78, 0xF0, 0x75, 0xEE, 0x7D, 0xEC,
            0x7F, 0xEA, 0x73, 0xE8, 0x77, 0xE6, 0x7B, 0xE4, 0x71, 0xE2, 0x79, 0xE0, 0xE2, 0xDE,
            0xE1, 0xDC, 0xE0, 0xDA, 0xE3, 0xD8,
        ],
        &[
            "jne $+4+0",
            "jne $-2+0",
            "jne $-4+0",
            "jne $-2+0",
            "je $+0",
            "jl $-2+0",
            "jle $-4+0",
            "jb $-6+0",
            "jbe $-8+0",
            "jp $-10+0",
            "jo $-12+0",
            "js $-14+0",
            "jne $-16+0",
            "jnl $-18+0",
            "jnle $-20+0",
            "jnb $-22+0",
            "jnbe $-24+0",
            "jnp $-26+0",
            "jno $-28+0",
            "jns $-30+0",
            "loop $-32+0",
            "loopz $-34+0",
            "loopnz $-36+0",
            "jcxz $-38+0",
        ],
    );
}

#[test]
fn homework4() {
    // Immediates into every register.
    let result = simulate(
        &[
            0xB8, 0x01, 0x00, 0xBB, 0x02, 0x00, 0xB9, 0x03, 0x00, 0xBA, 0x04, 0x00, 0xBC, 0x05,
            0x00, 0xBD, 0x06, 0x00, 0xBE, 0x07, 0x00, 0xBF, 0x08, 0x00,
        ],
    ).unwrap();
    assert_eq!(registers(&result), [1, 3, 4, 2, 5, 6, 7, 8, 24]);
    assert_eq!(result.cpu.flags(), CPUFlags { z: false, s: false });
    assert_eq!(result.cycles, 8 * 4);
    // Moves from register to register.
    let result = simulate(
        &[
            0xB8, 0x01, 0x00, 0xBB, 0x02, 0x00, 0xB9, 0x03, 0x00, 0xBA, 0x04, 0x00, 0x89, 0xC4,
            0x89, 0xDD, 0x89, 0xCE, 0x89, 0xD7, 0x89, 0xE2, 0x89, 0xE9, 0x89, 0xF3, 0x89, 0xF8,
        ],
    ).unwrap();
    assert_eq!(registers(&result), [4, 2, 1, 3, 1, 2, 3, 4, 28]);
    assert_eq!(result.cpu.flags(), CPUFlags { z: false, s: false });
    assert_eq!(result.cycles, 4 * 4 + 8 * 2);
}

#[test]
fn homework5() {
    // Subtractions, a comparison and an addition, with their flags.
    let result = simulate(
        &[
            0xBB, 0x03, 0xF0, 0xB9, 0x01, 0x0F, 0x29, 0xCB, 0xBC, 0xE6, 0x03, 0xBD, 0xE7, 0x03,
            0x39, 0xE5, 0x81, 0xC5, 0x03, 0x04, 0x81, 0xED, 0xEA, 0x07,
        ],
    ).unwrap();
    assert_eq!(registers(&result), [0, 0x0F01, 0, 0xE102, 0x03E6, 0, 0, 0, 24]);
    assert_eq!(result.cpu.flags(), CPUFlags { z: true, s: false });
    assert_eq!(result.executed_instructions.len(), 8);
}

#[test]
fn homework6() {
    // The instruction pointer moves with the instructions.
    let result = simulate(
        &[0xB9, 0xC8, 0x00, 0x89, 0xCB, 0x81, 0xC1, 0xE8, 0x03, 0xBB, 0xD0, 0x07, 0x29, 0xD9],
    ).unwrap();
    assert_eq!(registers(&result), [0, 0xFCE0, 0, 0x07D0, 0, 0, 0, 0, 0x000E]);
    assert_eq!(result.cpu.flags(), CPUFlags { z: false, s: true });
    // A counted loop with a conditional jump.
    let result = simulate(
        &[0xB9, 0x03, 0x00, 0xBB, 0xE8, 0x03, 0x83, 0xC3, 0x0A, 0x83, 0xE9, 0x01, 0x75, 0xF8],
    ).unwrap();
    assert_eq!(registers(&result), [0, 0, 0, 0x0406, 0, 0, 0, 0, 0x000E]);
    assert_eq!(result.cpu.flags(), CPUFlags { z: true, s: false });
    assert_eq!(result.executed_instructions.len(), 2 + 3 * 3);
}

#[test]
fn homework7() {
    // Words stored to memory and loaded again.
    let result = simulate(
        &[
            0xC7, 0x06, 0xE8, 0x03, 0x01, 0x00, 0xC7, 0x06, 0xEA, 0x03, 0x02, 0x00, 0xC7, 0x06,
            0xEC, 0x03, 0x03, 0x00, 0xC7, 0x06, 0xEE, 0x03, 0x04, 0x00, 0xBB, 0xE8, 0x03, 0xC7,
            0x47, 0x04, 0x0A, 0x00, 0x8B, 0x1E, 0xE8, 0x03, 0x8B, 0x0E, 0xEA, 0x03, 0x8B, 0x16,
            0xEC, 0x03, 0x8B, 0x2E, 0xEE, 0x03,
        ],
    ).unwrap();
    assert_eq!(registers(&result), [0, 2, 10, 1, 0, 4, 0, 0, 0x0030]);
    assert_eq!(result.cpu.flags(), CPUFlags { z: false, s: false });
    assert_eq!(result.cpu.loadu16(1000), 1);
    assert_eq!(result.cpu.loadu16(1002), 2);
    assert_eq!(result.cpu.loadu16(1004), 10);
    assert_eq!(result.cpu.loadu16(1006), 4);
}

//! The register catalog, the effective-address forms and the jump catalog.

use crate::text::push_decimal;
use crate::text::str_equal;
use crate::text::decimal;
use vstd::prelude::*;
use vstd::string::StringExecFns;

verus! {

/// The name of the word register with encoding `reg`; 8 names the instruction
/// pointer.
pub open spec fn word_register_name(reg: u8) -> &'static str {
    if reg == 0 {
        "ax"
    } else if reg == 1 {
        "cx"
    } else if reg == 2 {
        "dx"
    } else if reg == 3 {
        "bx"
    } else if reg == 4 {
        "sp"
    } else if reg == 5 {
        "bp"
    } else if reg == 6 {
        "si"
    } else if reg == 7 {
        "di"
    } else {
        "ip"
    }
}

/// The name of the byte register with encoding `reg`.
pub open spec fn byte_register_name(reg: u8) -> &'static str {
    if reg == 0 {
        "al"
    } else if reg == 1 {
        "cl"
    } else if reg == 2 {
        "dl"
    } else if reg == 3 {
        "bl"
    } else if reg == 4 {
        "ah"
    } else if reg == 5 {
        "ch"
    } else if reg == 6 {
        "dh"
    } else {
        "bh"
    }
}

/// A register of the catalog: one of the eight word registers, the eight byte
/// registers, or the instruction pointer.
///
/// A value of this type is always one of those seventeen: its ordinal is at
/// most 8, its width is 1 or 2 bytes, and its name is the one the catalog
/// gives to that ordinal and width.
#[derive(Copy, Clone, Debug, PartialEq, Eq)]
pub struct Register {
    name: &'static str,
    size: u8,
    reg: u8,
}

impl Register {
    #[verifier::type_invariant]
    pub closed spec fn in_catalog(&self) -> bool {
        ||| self.size == 2 && self.reg <= 8 && self.name == word_register_name(self.reg)
        ||| self.size == 1 && self.reg <= 7 && self.name == byte_register_name(self.reg)
    }

    /// The index into the register file: the encoding of the register, and 8
    /// for the instruction pointer.
    pub closed spec fn ordinal(&self) -> u8 {
        self.reg
    }

    /// The width in bytes, 1 or 2.
    pub closed spec fn width(&self) -> u8 {
        self.size
    }

    /// The name as the listing spells it.
    pub closed spec fn spec_name(&self) -> &'static str {
        self.name
    }

    /// The word register with ordinal `reg`.
    pub closed spec fn word(reg: u8) -> Register {
        Register { name: word_register_name(reg), size: 2, reg }
    }

    /// The byte register with ordinal `reg`.
    pub closed spec fn byte(reg: u8) -> Register {
        Register { name: byte_register_name(reg), size: 1, reg }
    }

    /// The register that the three-bit field `reg` selects, by the width bit.
    pub open spec fn spec_interpret(reg: u8, w: bool) -> Register {
        if w {
            Self::word(reg)
        } else {
            Self::byte(reg)
        }
    }

    /// The register of the catalog called `name`, if there is one.
    pub open spec fn spec_find(name: Seq<char>) -> Option<Register> {
        if exists|r: Register| r.in_catalog() && r.spec_name()@ == name {
            Some(choose|r: Register| r.in_catalog() && r.spec_name()@ == name)
        } else {
            None
        }
    }

    /// What the catalog holds: a register is in it exactly when it is a word
    /// register with ordinal up to 8 or a byte register with ordinal up to 7,
    /// and ordinal, width and name are as the tables give them.
    pub proof fn lemma_catalog(r: Register)
        ensures
            r.in_catalog() <==> (r == Self::word(r.ordinal()) && r.ordinal() <= 8) || (r
                == Self::byte(r.ordinal()) && r.ordinal() <= 7),
            forall|reg: u8| #[trigger]
                Self::word(reg).ordinal() == reg && Self::word(reg).width() == 2
                    && Self::word(reg).spec_name() == word_register_name(reg),
            forall|reg: u8| #[trigger]
                Self::byte(reg).ordinal() == reg && Self::byte(reg).width() == 1
                    && Self::byte(reg).spec_name() == byte_register_name(reg),
    {
    }

    /// No two registers of the catalog share a name.
    pub proof fn lemma_names_distinct(a: Register, b: Register)
        requires
            a.in_catalog(),
            b.in_catalog(),
            a.spec_name()@ == b.spec_name()@,
        ensures
            a == b,
    {
        reveal_strlit("ax");
        reveal_strlit("cx");
        reveal_strlit("dx");
        reveal_strlit("bx");
        reveal_strlit("sp");
        reveal_strlit("bp");
        reveal_strlit("si");
        reveal_strlit("di");
        reveal_strlit("ip");
        reveal_strlit("al");
        reveal_strlit("cl");
        reveal_strlit("dl");
        reveal_strlit("bl");
        reveal_strlit("ah");
        reveal_strlit("ch");
        reveal_strlit("dh");
        reveal_strlit("bh");
        let s = a.spec_name()@;
        let t = b.spec_name()@;
        assert(s[0] == t[0]);
        assert(s[1] == t[1]);
    }

    fn new(name: &'static str, size: u8, reg: u8) -> (r: Self)
        requires
            size == 2 && reg <= 8 && name == word_register_name(reg) || size == 1 && reg <= 7
                && name == byte_register_name(reg),
        ensures
            r.spec_name() == name,
            r.width() == size,
            r.ordinal() == reg,
            r.in_catalog(),
    {
        Register { name, size, reg }
    }

    /// The name of the register.
    pub fn name(&self) -> (name: &'static str)
        ensures
            name == self.spec_name(),
    {
        self.name
    }

    /// The index of the register in the register file.
    pub fn reg(&self) -> (reg: u8)
        ensures
            reg == self.ordinal(),
            reg <= 8,
            self.in_catalog(),
    {
        proof {
            use_type_invariant(self);
        }
        self.reg
    }

    /// The width of the register in bytes.
    pub fn len(&self) -> (n: usize)
        ensures
            n == self.width(),
            n == 1 || n == 2,
    {
        proof {
            use_type_invariant(self);
        }
        self.size as usize
    }

    /// The register that the three-bit field `reg` names: a word register if
    /// `w` is set, a byte register if not.
    pub fn interpret(reg: u8, w: bool) -> (r: Self)
        requires
            reg < 8,
        ensures
            r == Self::spec_interpret(reg, w),
            r.in_catalog(),
    {
        if w {
            let name = if reg == 0 {
                "ax"
            } else if reg == 1 {
                "cx"
            } else if reg == 2 {
                "dx"
            } else if reg == 3 {
                "bx"
            } else if reg == 4 {
                "sp"
            } else if reg == 5 {
                "bp"
            } else if reg == 6 {
                "si"
            } else {
                "di"
            };
            Register::new(name, 2, reg)
        } else {
            let name = if reg == 0 {
                "al"
            } else if reg == 1 {
                "cl"
            } else if reg == 2 {
                "dl"
            } else if reg == 3 {
                "bl"
            } else if reg == 4 {
                "ah"
            } else if reg == 5 {
                "ch"
            } else if reg == 6 {
                "dh"
            } else {
                "bh"
            };
            Register::new(name, 1, reg)
        }
    }

    /// The accumulator of the given width: `ax` if `w` is set, `al` if not.
    pub fn interpret_accumulator(w: bool) -> (r: Self)
        ensures
            r == Self::spec_interpret(0, w),
            r.in_catalog(),
    {
        if w {
            Register::new("ax", 2, 0)
        } else {
            Register::new("al", 1, 0)
        }
    }

    /// The instruction pointer.
    pub fn instruction_pointer() -> (r: Self)
        ensures
            r == Self::word(8),
            r.in_catalog(),
    {
        Register::new("ip", 2, 8)
    }

    /// Looks a register up by its name: the word registers, the byte
    /// registers, then the instruction pointer.
    pub fn find(name: &str) -> (found: Option<Register>)
        ensures
            found == Self::spec_find(name@),
    {
        let mut i: u8 = 0;
        while i < 8
            invariant
                i <= 8,
                forall|j: u8| j < i ==> (#[trigger] Self::word(j)).spec_name()@ != name@,
            decreases 8 - i,
        {
            let candidate = Register::interpret(i, true);
            if str_equal(name, candidate.name()) {
                proof {
                    Self::lemma_found(candidate, name@);
                }
                return Some(candidate);
            }
            i += 1;
        }
        let mut k: u8 = 0;
        while k < 8
            invariant
                k <= 8,
                forall|j: u8| j < 8 ==> (#[trigger] Self::word(j)).spec_name()@ != name@,
                forall|j: u8| j < k ==> (#[trigger] Self::byte(j)).spec_name()@ != name@,
            decreases 8 - k,
        {
            let candidate = Register::interpret(k, false);
            if str_equal(name, candidate.name()) {
                proof {
                    Self::lemma_found(candidate, name@);
                }
                return Some(candidate);
            }
            k += 1;
        }
        let ip = Register::instruction_pointer();
        if str_equal(name, ip.name()) {
            proof {
                Self::lemma_found(ip, name@);
            }
            return Some(ip);
        }
        proof {
            assert forall|r: Register| !(r.in_catalog() && r.spec_name()@ == name@) by {
                if r.in_catalog() {
                    if r.size == 2 {
                        assert(r == Self::word(r.reg));
                    } else {
                        assert(r == Self::byte(r.reg));
                    }
                }
            }
        }
        None
    }

    proof fn lemma_found(r: Register, name: Seq<char>)
        requires
            r.in_catalog(),
            r.spec_name()@ == name,
        ensures
            Self::spec_find(name) == Some(r),
    {
        let c = Self::spec_find(name)->0;
        Self::lemma_names_distinct(c, r);
    }

    /// The name of the register, as the listing spells it.
    pub fn to_string(&self) -> (s: String)
        ensures
            s@ == self.spec_name()@,
    {
        String::from_str(self.name)
    }
}

/// An effective-address form: the registers that are summed, with the
/// displacement that is added to them; `DirectAddress` holds the address
/// itself.
#[derive(Debug, Clone, Copy, PartialEq, Eq, Structural)]
pub enum EAC {
    BxSi(u16),
    BxDi(u16),
    BpSi(u16),
    BpDi(u16),
    Si(u16),
    Di(u16),
    Bp(u16),
    Bx(u16),
    DirectAddress(u16),
}

impl EAC {
    /// The form that the fields R/M and MOD select. With R/M 110 and MOD 00
    /// the displacement is an absolute address.
    pub open spec fn spec_new(rm: u8, vmod: u8, offset: u16) -> EAC {
        if rm == 0 {
            EAC::BxSi(offset)
        } else if rm == 1 {
            EAC::BxDi(offset)
        } else if rm == 2 {
            EAC::BpSi(offset)
        } else if rm == 3 {
            EAC::BpDi(offset)
        } else if rm == 4 {
            EAC::Si(offset)
        } else if rm == 5 {
            EAC::Di(offset)
        } else if rm == 6 {
            if vmod == 0 {
                EAC::DirectAddress(offset)
            } else {
                EAC::Bp(offset)
            }
        } else {
            EAC::Bx(offset)
        }
    }

    /// The displacement, or the address of `DirectAddress`.
    pub open spec fn displacement(self) -> u16 {
        match self {
            EAC::BxSi(d) => d,
            EAC::BxDi(d) => d,
            EAC::BpSi(d) => d,
            EAC::BpDi(d) => d,
            EAC::Si(d) => d,
            EAC::Di(d) => d,
            EAC::Bp(d) => d,
            EAC::Bx(d) => d,
            EAC::DirectAddress(d) => d,
        }
    }

    /// The registers of the form as the listing writes them; empty for
    /// `DirectAddress`.
    pub open spec fn base_text(self) -> Seq<char> {
        match self {
            EAC::BxSi(_) => "bx + si"@,
            EAC::BxDi(_) => "bx + di"@,
            EAC::BpSi(_) => "bp + si"@,
            EAC::BpDi(_) => "bp + di"@,
            EAC::Si(_) => "si"@,
            EAC::Di(_) => "di"@,
            EAC::Bp(_) => "bp"@,
            EAC::Bx(_) => "bx"@,
            EAC::DirectAddress(_) => Seq::empty(),
        }
    }

    /// The operand as the listing writes it: the registers in brackets, with
    /// the displacement added when it is not zero; a direct address is the bare
    /// number in brackets.
    pub open spec fn text(self) -> Seq<char> {
        if self is DirectAddress {
            "["@ + decimal(self.displacement() as nat) + "]"@
        } else if self.displacement() == 0 {
            "["@ + self.base_text() + "]"@
        } else {
            "["@ + self.base_text() + " + "@ + decimal(self.displacement() as nat) + "]"@
        }
    }

    /// Builds the form that R/M and MOD select, with the given displacement.
    pub fn new(rm: u8, vmod: u8, offset: u16) -> (eac: Self)
        requires
            rm < 8,
        ensures
            eac == Self::spec_new(rm, vmod, offset),
            rm == 6 && vmod == 0 ==> eac == EAC::DirectAddress(offset),
            eac.displacement() == offset,
    {
        match rm {
            0 => EAC::BxSi(offset),
            1 => EAC::BxDi(offset),
            2 => EAC::BpSi(offset),
            3 => EAC::BpDi(offset),
            4 => EAC::Si(offset),
            5 => EAC::Di(offset),
            6 => {
                if vmod == 0 {
                    EAC::DirectAddress(offset)
                } else {
                    EAC::Bp(offset)
                }
            },
            _ => EAC::Bx(offset),
        }
    }

    /// The operand as the listing writes it.
    pub fn to_string(&self) -> (s: String)
        ensures
            s@ == self.text(),
    {
        let (base, offset): (&'static str, u16) = match self {
            EAC::BxSi(d) => ("bx + si", *d),
            EAC::BxDi(d) => ("bx + di", *d),
            EAC::BpSi(d) => ("bp + si", *d),
            EAC::BpDi(d) => ("bp + di", *d),
            EAC::Si(d) => ("si", *d),
            EAC::Di(d) => ("di", *d),
            EAC::Bp(d) => ("bp", *d),
            EAC::Bx(d) => ("bx", *d),
            EAC::DirectAddress(d) => ("", *d),
        };
        let mut s = String::from_str("[");
        match self {
            EAC::DirectAddress(_) => {
                push_decimal(&mut s, offset);
            },
            _ => {
                s.append(base);
                if offset != 0 {
                    s.append(" + ");
                    push_decimal(&mut s, offset);
                }
            },
        }
        s.append("]");
        proof {
            assert(s@ =~= self.text());
        }
        s
    }
}

/// The condition of a short jump or of a loop instruction.
#[derive(Debug, Clone, Copy, PartialEq, Eq, Structural, Hash)]
pub enum Jump {
    JO,
    JNO,
    JB,
    JNB,
    JE,
    JNE,
    JBE,
    JNBE,
    JS,
    JNS,
    JP,
    JNP,
    JL,
    JNL,
    JLE,
    JNLE,
    JCXZ,
    JMP,
    LOOPNZ,
    LOOPZ,
    LOOP,
}

/// A short jump or loop instruction: its opcode byte, its condition and its
/// mnemonic.
#[derive(Debug, Clone, Copy, PartialEq, Eq, Hash)]
pub struct JumpDescription {
    pub opcode: u8,
    pub jump: Jump,
    pub name: &'static str,
}

impl JumpDescription {
    /// The jump or loop instruction whose opcode byte is `opcode`: the sixteen
    /// conditional jumps at 0x70 to 0x7F, `loopnz`, `loopz`, `loop` and `jcxz`
    /// at 0xE0 to 0xE3, and `jmp` at 0xEB.
    pub open spec fn spec_find(opcode: u8) -> Option<JumpDescription> {
        if opcode == 0x70 {
            Some(JumpDescription { opcode, jump: Jump::JO, name: "jo" })
        } else if opcode == 0x71 {
            Some(JumpDescription { opcode, jump: Jump::JNO, name: "jno" })
        } else if opcode == 0x72 {
            Some(JumpDescription { opcode, jump: Jump::JB, name: "jb" })
        } else if opcode == 0x73 {
            Some(JumpDescription { opcode, jump: Jump::JNB, name: "jnb" })
        } else if opcode == 0x74 {
            Some(JumpDescription { opcode, jump: Jump::JE, name: "je" })
        } else if opcode == 0x75 {
            Some(JumpDescription { opcode, jump: Jump::JNE, name: "jne" })
        } else if opcode == 0x76 {
            Some(JumpDescription { opcode, jump: Jump::JBE, name: "jbe" })
        } else if opcode == 0x77 {
            Some(JumpDescription { opcode, jump: Jump::JNBE, name: "jnbe" })
        } else if opcode == 0x78 {
            Some(JumpDescription { opcode, jump: Jump::JS, name: "js" })
        } else if opcode == 0x79 {
            Some(JumpDescription { opcode, jump: Jump::JNS, name: "jns" })
        } else if opcode == 0x7A {
            Some(JumpDescription { opcode, jump: Jump::JP, name: "jp" })
        } else if opcode == 0x7B {
            Some(JumpDescription { opcode, jump: Jump::JNP, name: "jnp" })
        } else if opcode == 0x7C {
            Some(JumpDescription { opcode, jump: Jump::JL, name: "jl" })
        } else if opcode == 0x7D {
            Some(JumpDescription { opcode, jump: Jump::JNL, name: "jnl" })
        } else if opcode == 0x7E {
            Some(JumpDescription { opcode, jump: Jump::JLE, name: "jle" })
        } else if opcode == 0x7F {
            Some(JumpDescription { opcode, jump: Jump::JNLE, name: "jnle" })
        } else if opcode == 0xE3 {
            Some(JumpDescription { opcode, jump: Jump::JCXZ, name: "jcxz" })
        } else if opcode == 0xEB {
            Some(JumpDescription { opcode, jump: Jump::JMP, name: "jmp" })
        } else if opcode == 0xE0 {
            Some(JumpDescription { opcode, jump: Jump::LOOPNZ, name: "loopnz" })
        } else if opcode == 0xE1 {
            Some(JumpDescription { opcode, jump: Jump::LOOPZ, name: "loopz" })
        } else if opcode == 0xE2 {
            Some(JumpDescription { opcode, jump: Jump::LOOP, name: "loop" })
        } else {
            None
        }
    }

    pub fn new(opcode: u8, jump: Jump, name: &'static str) -> (description: Self)
        ensures
            description == (JumpDescription { opcode, jump, name }),
    {
        JumpDescription { opcode, jump, name }
    }

    /// Looks a jump or loop instruction up by its opcode byte.
    pub fn find(opcode: u8) -> (found: Option<JumpDescription>)
        ensures
            found == Self::spec_find(opcode),
    {
        let (jump, name): (Jump, &'static str) = match opcode {
            0x70 => (Jump::JO, "jo"),
            0x71 => (Jump::JNO, "jno"),
            0x72 => (Jump::JB, "jb"),
            0x73 => (Jump::JNB, "jnb"),
            0x74 => (Jump::JE, "je"),
            0x75 => (Jump::JNE, "jne"),
            0x76 => (Jump::JBE, "jbe"),
            0x77 => (Jump::JNBE, "jnbe"),
            0x78 => (Jump::JS, "js"),
            0x79 => (Jump::JNS, "jns"),
            0x7A => (Jump::JP, "jp"),
            0x7B => (Jump::JNP, "jnp"),
            0x7C => (Jump::JL, "jl"),
            0x7D => (Jump::JNL, "jnl"),
            0x7E => (Jump::JLE, "jle"),
            0x7F => (Jump::JNLE, "jnle"),
            0xE3 => (Jump::JCXZ, "jcxz"),
            0xEB => (Jump::JMP, "jmp"),
            0xE0 => (Jump::LOOPNZ, "loopnz"),
            0xE1 => (Jump::LOOPZ, "loopz"),
            0xE2 => (Jump::LOOP, "loop"),
            _ => {
                return None;
            },
        };
        Some(JumpDescription::new(opcode, jump, name))
    }
}

} // verus!

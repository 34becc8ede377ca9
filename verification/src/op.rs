//! Instruction decoder: a pure, total function from a 16-bit instruction
//! word to a tagged instruction value.
//!
//! The high nibble selects the opcode family; sub-nibbles yield register
//! indices, a 12-bit address, an 8-bit immediate or a 4-bit count. Any word
//! whose low nibbles do not match a defined instruction within its family
//! decodes to `INV`, carrying the raw word; `INV` is itself the error
//! signal, not an exception.

use vstd::prelude::*;

verus! {

#[derive(Clone, Copy, PartialEq, Eq, Structural, Debug)]
pub enum Op {
    SYS { addr: u16 },
    CLS,
    RET,
    /// jump
    JP { addr: u16 },
    CALL { addr: u16 },
    /// skip equal immediate
    SE { reg: u8, byte: u8 },
    /// skip not equal immediate
    SNE { reg: u8, byte: u8 },
    /// skip equal register
    SER { reg_a: u8, reg_b: u8 },
    /// load immediate
    LD { reg: u8, byte: u8 },
    /// add immediate
    ADD { reg: u8, byte: u8 },
    /// load register
    LDR { reg_a: u8, reg_b: u8 },
    OR { reg_a: u8, reg_b: u8 },
    AND { reg_a: u8, reg_b: u8 },
    XOR { reg_a: u8, reg_b: u8 },
    /// add register
    ADDR { reg_a: u8, reg_b: u8 },
    SUB { reg_a: u8, reg_b: u8 },
    SHR { reg_a: u8, reg_b: u8 },
    SUBN { reg_a: u8, reg_b: u8 },
    SHL { reg_a: u8, reg_b: u8 },
    /// skip not equal register
    SNER { reg_a: u8, reg_b: u8 },
    /// load address register
    LDA { addr: u16 },
    /// jump to address with offset
    JPO { addr: u16 },
    RND { reg: u8, byte: u8 },
    DRW { reg_a: u8, reg_b: u8, nibble: u8 },
    SKP { reg: u8 },
    SKNP { reg: u8 },
    /// load delay timer
    LDDT { reg: u8 },
    /// load key press
    LDKP { reg: u8 },
    /// store delay timer
    STDT { reg: u8 },
    /// store sound timer
    STST { reg: u8 },
    /// add to address register
    ADDA { reg: u8 },
    /// load sprite address
    LDSA { reg: u8 },
    /// store decimal representation
    STDR { reg: u8 },
    /// store registers
    STRR { reg: u8 },
    /// load registers
    LDRR { reg: u8 },
    INV { opcode: u16 },
}

/// The register index in bits 8..12 of a word.
pub open spec fn op_x(w: u16) -> u8 {
    ((w & 0x0F00) >> 8) as u8
}

/// The register index in bits 4..8 of a word.
pub open spec fn op_y(w: u16) -> u8 {
    ((w & 0x00F0) >> 4) as u8
}

/// The 12-bit address field of a word.
pub open spec fn op_nnn(w: u16) -> u16 {
    w & 0x0FFF
}

/// The 8-bit immediate field of a word.
pub open spec fn op_kk(w: u16) -> u8 {
    (w & 0x00FF) as u8
}

/// The 4-bit count field of a word.
pub open spec fn op_n(w: u16) -> u8 {
    (w & 0x000F) as u8
}

/// The instruction denoted by a 16-bit word.
pub open spec fn decode_spec(w: u16) -> Op {
    let family = w & 0xF000;
    if family == 0x0000 {
        if w & 0x0FFF == 0x00E0 {
            Op::CLS
        } else if w & 0x0FFF == 0x00EE {
            Op::RET
        } else {
            Op::SYS { addr: op_nnn(w) }
        }
    } else if family == 0x1000 {
        Op::JP { addr: op_nnn(w) }
    } else if family == 0x2000 {
        Op::CALL { addr: op_nnn(w) }
    } else if family == 0x3000 {
        Op::SE { reg: op_x(w), byte: op_kk(w) }
    } else if family == 0x4000 {
        Op::SNE { reg: op_x(w), byte: op_kk(w) }
    } else if family == 0x5000 {
        if w & 0x000F == 0x0 {
            Op::SER { reg_a: op_x(w), reg_b: op_y(w) }
        } else {
            Op::INV { opcode: w }
        }
    } else if family == 0x6000 {
        Op::LD { reg: op_x(w), byte: op_kk(w) }
    } else if family == 0x7000 {
        Op::ADD { reg: op_x(w), byte: op_kk(w) }
    } else if family == 0x8000 {
        let sub = w & 0x000F;
        if sub == 0x0 {
            Op::LDR { reg_a: op_x(w), reg_b: op_y(w) }
        } else if sub == 0x1 {
            Op::OR { reg_a: op_x(w), reg_b: op_y(w) }
        } else if sub == 0x2 {
            Op::AND { reg_a: op_x(w), reg_b: op_y(w) }
        } else if sub == 0x3 {
            Op::XOR { reg_a: op_x(w), reg_b: op_y(w) }
        } else if sub == 0x4 {
            Op::ADDR { reg_a: op_x(w), reg_b: op_y(w) }
        } else if sub == 0x5 {
            Op::SUB { reg_a: op_x(w), reg_b: op_y(w) }
        } else if sub == 0x6 {
            Op::SHR { reg_a: op_x(w), reg_b: op_y(w) }
        } else if sub == 0x7 {
            Op::SUBN { reg_a: op_x(w), reg_b: op_y(w) }
        } else if sub == 0xE {
            Op::SHL { reg_a: op_x(w), reg_b: op_y(w) }
        } else {
            Op::INV { opcode: w }
        }
    } else if family == 0x9000 {
        if w & 0x000F == 0x0 {
            Op::SNER { reg_a: op_x(w), reg_b: op_y(w) }
        } else {
            Op::INV { opcode: w }
        }
    } else if family == 0xA000 {
        Op::LDA { addr: op_nnn(w) }
    } else if family == 0xB000 {
        Op::JPO { addr: op_nnn(w) }
    } else if family == 0xC000 {
        Op::RND { reg: op_x(w), byte: op_kk(w) }
    } else if family == 0xD000 {
        Op::DRW { reg_a: op_x(w), reg_b: op_y(w), nibble: op_n(w) }
    } else if family == 0xE000 {
        let sub = w & 0x00FF;
        if sub == 0x9E {
            Op::SKP { reg: op_x(w) }
        } else if sub == 0xA1 {
            Op::SKNP { reg: op_x(w) }
        } else {
            Op::INV { opcode: w }
        }
    } else if family == 0xF000 {
        let sub = w & 0x00FF;
        if sub == 0x07 {
            Op::LDDT { reg: op_x(w) }
        } else if sub == 0x0A {
            Op::LDKP { reg: op_x(w) }
        } else if sub == 0x15 {
            Op::STDT { reg: op_x(w) }
        } else if sub == 0x18 {
            Op::STST { reg: op_x(w) }
        } else if sub == 0x1E {
            Op::ADDA { reg: op_x(w) }
        } else if sub == 0x29 {
            Op::LDSA { reg: op_x(w) }
        } else if sub == 0x33 {
            Op::STDR { reg: op_x(w) }
        } else if sub == 0x55 {
            Op::STRR { reg: op_x(w) }
        } else if sub == 0x65 {
            Op::LDRR { reg: op_x(w) }
        } else {
            Op::INV { opcode: w }
        }
    } else {
        Op::INV { opcode: w }
    }
}

/// Whether a word matches a defined instruction: every family with a fully
/// used operand field is total, the others admit only their listed
/// sub-opcodes.
pub open spec fn defined(w: u16) -> bool {
    let family = w & 0xF000;
    ||| family == 0x0000
    ||| family == 0x1000
    ||| family == 0x2000
    ||| family == 0x3000
    ||| family == 0x4000
    ||| (family == 0x5000 && w & 0x000F == 0x0)
    ||| family == 0x6000
    ||| family == 0x7000
    ||| (family == 0x8000 && (w & 0x000F <= 0x7 || w & 0x000F == 0xE))
    ||| (family == 0x9000 && w & 0x000F == 0x0)
    ||| family == 0xA000
    ||| family == 0xB000
    ||| family == 0xC000
    ||| family == 0xD000
    ||| (family == 0xE000 && (w & 0x00FF == 0x9E || w & 0x00FF == 0xA1))
    ||| (family == 0xF000 && (w & 0x00FF == 0x07 || w & 0x00FF == 0x0A || w & 0x00FF == 0x15
        || w & 0x00FF == 0x18 || w & 0x00FF == 0x1E || w & 0x00FF == 0x29 || w & 0x00FF == 0x33
        || w & 0x00FF == 0x55 || w & 0x00FF == 0x65))
}

/// Encoding of an instruction whose fields use the address slot.
pub open spec fn enc_nnn(family: u16, addr: u16) -> u16 {
    family | (addr & 0x0FFF)
}

/// Encoding of an instruction with a register index and an immediate byte.
pub open spec fn enc_xkk(family: u16, reg: u8, byte: u8) -> u16 {
    family | ((((reg & 0xF) as u16)) << 8) | (byte as u16)
}

/// Encoding of an instruction with two register indices and a sub-opcode in
/// the low nibble or byte.
pub open spec fn enc_xy(family: u16, sub: u16, reg_a: u8, reg_b: u8) -> u16 {
    family | ((((reg_a & 0xF) as u16)) << 8) | ((((reg_b & 0xF) as u16)) << 4) | sub
}

/// Encoding of an instruction with one register index and a sub-opcode in
/// the low byte.
pub open spec fn enc_x(family: u16, sub: u16, reg: u8) -> u16 {
    family | ((((reg & 0xF) as u16)) << 8) | sub
}

/// Encoding of the draw instruction.
pub open spec fn enc_drw(reg_a: u8, reg_b: u8, nibble: u8) -> u16 {
    0xD000 | ((((reg_a & 0xF) as u16)) << 8) | ((((reg_b & 0xF) as u16)) << 4) | (
    (nibble & 0xF) as u16)
}

/// The canonical 16-bit word of an instruction. Total: the invalid variant
/// carries its raw word, and operand fields are masked to their slots.
pub open spec fn encode_spec(op: Op) -> u16 {
    match op {
        Op::SYS { addr } => enc_nnn(0x0000, addr),
        Op::CLS => 0x00E0,
        Op::RET => 0x00EE,
        Op::JP { addr } => enc_nnn(0x1000, addr),
        Op::CALL { addr } => enc_nnn(0x2000, addr),
        Op::SE { reg, byte } => enc_xkk(0x3000, reg, byte),
        Op::SNE { reg, byte } => enc_xkk(0x4000, reg, byte),
        Op::SER { reg_a, reg_b } => enc_xy(0x5000, 0x0, reg_a, reg_b),
        Op::LD { reg, byte } => enc_xkk(0x6000, reg, byte),
        Op::ADD { reg, byte } => enc_xkk(0x7000, reg, byte),
        Op::LDR { reg_a, reg_b } => enc_xy(0x8000, 0x0, reg_a, reg_b),
        Op::OR { reg_a, reg_b } => enc_xy(0x8000, 0x1, reg_a, reg_b),
        Op::AND { reg_a, reg_b } => enc_xy(0x8000, 0x2, reg_a, reg_b),
        Op::XOR { reg_a, reg_b } => enc_xy(0x8000, 0x3, reg_a, reg_b),
        Op::ADDR { reg_a, reg_b } => enc_xy(0x8000, 0x4, reg_a, reg_b),
        Op::SUB { reg_a, reg_b } => enc_xy(0x8000, 0x5, reg_a, reg_b),
        Op::SHR { reg_a, reg_b } => enc_xy(0x8000, 0x6, reg_a, reg_b),
        Op::SUBN { reg_a, reg_b } => enc_xy(0x8000, 0x7, reg_a, reg_b),
        Op::SHL { reg_a, reg_b } => enc_xy(0x8000, 0xE, reg_a, reg_b),
        Op::SNER { reg_a, reg_b } => enc_xy(0x9000, 0x0, reg_a, reg_b),
        Op::LDA { addr } => enc_nnn(0xA000, addr),
        Op::JPO { addr } => enc_nnn(0xB000, addr),
        Op::RND { reg, byte } => enc_xkk(0xC000, reg, byte),
        Op::DRW { reg_a, reg_b, nibble } => enc_drw(reg_a, reg_b, nibble),
        Op::SKP { reg } => enc_x(0xE000, 0x9E, reg),
        Op::SKNP { reg } => enc_x(0xE000, 0xA1, reg),
        Op::LDDT { reg } => enc_x(0xF000, 0x07, reg),
        Op::LDKP { reg } => enc_x(0xF000, 0x0A, reg),
        Op::STDT { reg } => enc_x(0xF000, 0x15, reg),
        Op::STST { reg } => enc_x(0xF000, 0x18, reg),
        Op::ADDA { reg } => enc_x(0xF000, 0x1E, reg),
        Op::LDSA { reg } => enc_x(0xF000, 0x29, reg),
        Op::STDR { reg } => enc_x(0xF000, 0x33, reg),
        Op::STRR { reg } => enc_x(0xF000, 0x55, reg),
        Op::LDRR { reg } => enc_x(0xF000, 0x65, reg),
        Op::INV { opcode } => opcode,
    }
}

/// Bit-level facts behind the round trip: within each family, re-assembling
/// the extracted operand fields yields the original word.
proof fn lemma_encode_bits(w: u16)
    by (bit_vector)
    ensures
        w & 0xF000 == 0x0000 ==> enc_nnn(0x0000, op_nnn(w)) == w,
        w & 0xF000 == 0x0000 && w & 0x0FFF == 0x00E0 ==> w == 0x00E0,
        w & 0xF000 == 0x0000 && w & 0x0FFF == 0x00EE ==> w == 0x00EE,
        w & 0xF000 == 0x1000 ==> enc_nnn(0x1000, op_nnn(w)) == w,
        w & 0xF000 == 0x2000 ==> enc_nnn(0x2000, op_nnn(w)) == w,
        w & 0xF000 == 0x3000 ==> enc_xkk(0x3000, op_x(w), op_kk(w)) == w,
        w & 0xF000 == 0x4000 ==> enc_xkk(0x4000, op_x(w), op_kk(w)) == w,
        w & 0xF000 == 0x5000 ==> enc_xy(0x5000, w & 0x000F, op_x(w), op_y(w)) == w,
        w & 0xF000 == 0x6000 ==> enc_xkk(0x6000, op_x(w), op_kk(w)) == w,
        w & 0xF000 == 0x7000 ==> enc_xkk(0x7000, op_x(w), op_kk(w)) == w,
        w & 0xF000 == 0x8000 ==> enc_xy(0x8000, w & 0x000F, op_x(w), op_y(w)) == w,
        w & 0xF000 == 0x9000 ==> enc_xy(0x9000, w & 0x000F, op_x(w), op_y(w)) == w,
        w & 0xF000 == 0xA000 ==> enc_nnn(0xA000, op_nnn(w)) == w,
        w & 0xF000 == 0xB000 ==> enc_nnn(0xB000, op_nnn(w)) == w,
        w & 0xF000 == 0xC000 ==> enc_xkk(0xC000, op_x(w), op_kk(w)) == w,
        w & 0xF000 == 0xD000 ==> enc_drw(op_x(w), op_y(w), op_n(w)) == w,
        w & 0xF000 == 0xE000 ==> enc_x(0xE000, w & 0x00FF, op_x(w)) == w,
        w & 0xF000 == 0xF000 ==> enc_x(0xF000, w & 0x00FF, op_x(w)) == w,
{
}

/// Round trip: decoding any 16-bit word and re-encoding the result recovers
/// the word exactly, so the decoder loses no operand field and assigns each
/// word to at most one instruction.
pub proof fn lemma_decode_encode(w: u16)
    ensures
        encode_spec(decode_spec(w)) == w,
{
    lemma_encode_bits(w);
}

/// A word decodes to the invalid variant exactly when its family or
/// sub-opcode is undefined.
pub proof fn lemma_invalid_iff_undefined(w: u16)
    ensures
        (decode_spec(w) is INV) <==> !defined(w),
{
}

/// Operand fields are nibble- or slot-bounded: register indices fit in four
/// bits and addresses in twelve.
pub proof fn lemma_field_bounds(w: u16)
    by (bit_vector)
    ensures
        op_x(w) < 16,
        op_y(w) < 16,
        op_n(w) < 16,
        op_nnn(w) < 0x1000,
{
}

/// The mnemonic of each instruction.
pub open spec fn name_spec(op: Op) -> Seq<char> {
    match op {
        Op::CLS => "CLS"@,
        Op::RET => "RET"@,
        Op::SYS { .. } => "SYS"@,
        Op::JP { .. } => "JP"@,
        Op::CALL { .. } => "CALL"@,
        Op::SE { .. } => "SE"@,
        Op::SNE { .. } => "SNE"@,
        Op::SER { .. } => "SER"@,
        Op::LD { .. } => "LD"@,
        Op::ADD { .. } => "ADD"@,
        Op::LDR { .. } => "LDR"@,
        Op::OR { .. } => "OR"@,
        Op::AND { .. } => "AND"@,
        Op::XOR { .. } => "XOR"@,
        Op::ADDR { .. } => "ADDR"@,
        Op::SUB { .. } => "SUB"@,
        Op::SHR { .. } => "SHR"@,
        Op::SUBN { .. } => "SUBN"@,
        Op::SHL { .. } => "SHL"@,
        Op::SNER { .. } => "SNER"@,
        Op::LDA { .. } => "LDA"@,
        Op::JPO { .. } => "JPO"@,
        Op::RND { .. } => "RND"@,
        Op::DRW { .. } => "DRW"@,
        Op::SKP { .. } => "SKP"@,
        Op::SKNP { .. } => "SKNP"@,
        Op::LDDT { .. } => "LDDT"@,
        Op::LDKP { .. } => "LDKP"@,
        Op::STDT { .. } => "STDT"@,
        Op::STST { .. } => "STST"@,
        Op::ADDA { .. } => "ADDA"@,
        Op::LDSA { .. } => "LDSA"@,
        Op::STDR { .. } => "STDR"@,
        Op::STRR { .. } => "STRR"@,
        Op::LDRR { .. } => "LDRR"@,
        Op::INV { .. } => "INV"@,
    }
}

impl Op {
    /// Decode a 16-bit big-endian instruction word.
    pub fn decode(opcode: u16) -> (op: Self)
        ensures
            op == decode_spec(opcode),
    {
        let family = opcode & 0xF000;
        if family == 0x0000 {
            if opcode & 0x0FFF == 0x00E0 {
                Self::CLS
            } else if opcode & 0x0FFF == 0x00EE {
                Self::RET
            } else {
                Self::SYS { addr: opcode & 0x0FFF }
            }
        } else if family == 0x1000 {
            Self::JP { addr: opcode & 0x0FFF }
        } else if family == 0x2000 {
            Self::CALL { addr: opcode & 0x0FFF }
        } else if family == 0x3000 {
            Self::SE { reg: ((opcode & 0x0F00) >> 8) as u8, byte: (opcode & 0x00FF) as u8 }
        } else if family == 0x4000 {
            Self::SNE { reg: ((opcode & 0x0F00) >> 8) as u8, byte: (opcode & 0x00FF) as u8 }
        } else if family == 0x5000 {
            if opcode & 0x000F == 0x0 {
                Self::SER {
                    reg_a: ((opcode & 0x0F00) >> 8) as u8,
                    reg_b: ((opcode & 0x00F0) >> 4) as u8,
                }
            } else {
                Self::INV { opcode }
            }
        } else if family == 0x6000 {
            Self::LD { reg: ((opcode & 0x0F00) >> 8) as u8, byte: (opcode & 0x00FF) as u8 }
        } else if family == 0x7000 {
            Self::ADD { reg: ((opcode & 0x0F00) >> 8) as u8, byte: (opcode & 0x00FF) as u8 }
        } else if family == 0x8000 {
            let reg_a = ((opcode & 0x0F00) >> 8) as u8;
            let reg_b = ((opcode & 0x00F0) >> 4) as u8;
            let sub = opcode & 0x000F;
            if sub == 0x0 {
                Self::LDR { reg_a, reg_b }
            } else if sub == 0x1 {
                Self::OR { reg_a, reg_b }
            } else if sub == 0x2 {
                Self::AND { reg_a, reg_b }
            } else if sub == 0x3 {
                Self::XOR { reg_a, reg_b }
            } else if sub == 0x4 {
                Self::ADDR { reg_a, reg_b }
            } else if sub == 0x5 {
                Self::SUB { reg_a, reg_b }
            } else if sub == 0x6 {
                Self::SHR { reg_a, reg_b }
            } else if sub == 0x7 {
                Self::SUBN { reg_a, reg_b }
            } else if sub == 0xE {
                Self::SHL { reg_a, reg_b }
            } else {
                Self::INV { opcode }
            }
        } else if family == 0x9000 {
            if opcode & 0x000F == 0x0 {
                Self::SNER {
                    reg_a: ((opcode & 0x0F00) >> 8) as u8,
                    reg_b: ((opcode & 0x00F0) >> 4) as u8,
                }
            } else {
                Self::INV { opcode }
            }
        } else if family == 0xA000 {
            Self::LDA { addr: opcode & 0x0FFF }
        } else if family == 0xB000 {
            Self::JPO { addr: opcode & 0x0FFF }
        } else if family == 0xC000 {
            Self::RND { reg: ((opcode & 0x0F00) >> 8) as u8, byte: (opcode & 0x00FF) as u8 }
        } else if family == 0xD000 {
            Self::DRW {
                reg_a: ((opcode & 0x0F00) >> 8) as u8,
                reg_b: ((opcode & 0x00F0) >> 4) as u8,
                nibble: (opcode & 0x000F) as u8,
            }
        } else if family == 0xE000 {
            let reg = ((opcode & 0x0F00) >> 8) as u8;
            let sub = opcode & 0x00FF;
            if sub == 0x9E {
                Self::SKP { reg }
            } else if sub == 0xA1 {
                Self::SKNP { reg }
            } else {
                Self::INV { opcode }
            }
        } else if family == 0xF000 {
            let reg = ((opcode & 0x0F00) >> 8) as u8;
            let sub = opcode & 0x00FF;
            if sub == 0x07 {
                Self::LDDT { reg }
            } else if sub == 0x0A {
                Self::LDKP { reg }
            } else if sub == 0x15 {
                Self::STDT { reg }
            } else if sub == 0x18 {
                Self::STST { reg }
            } else if sub == 0x1E {
                Self::ADDA { reg }
            } else if sub == 0x29 {
                Self::LDSA { reg }
            } else if sub == 0x33 {
                Self::STDR { reg }
            } else if sub == 0x55 {
                Self::STRR { reg }
            } else if sub == 0x65 {
                Self::LDRR { reg }
            } else {
                Self::INV { opcode }
            }
        } else {
            Self::INV { opcode }
        }
    }

    /// The mnemonic of this instruction.
    pub fn name(&self) -> (r: &'static str)
        ensures
            r@ == name_spec(*self),
    {
        match self {
            Self::CLS => "CLS",
            Self::RET => "RET",
            Self::SYS { .. } => "SYS",
            Self::JP { .. } => "JP",
            Self::CALL { .. } => "CALL",
            Self::SE { .. } => "SE",
            Self::SNE { .. } => "SNE",
            Self::SER { .. } => "SER",
            Self::LD { .. } => "LD",
            Self::ADD { .. } => "ADD",
            Self::LDR { .. } => "LDR",
            Self::OR { .. } => "OR",
            Self::AND { .. } => "AND",
            Self::XOR { .. } => "XOR",
            Self::ADDR { .. } => "ADDR",
            Self::SUB { .. } => "SUB",
            Self::SHR { .. } => "SHR",
            Self::SUBN { .. } => "SUBN",
            Self::SHL { .. } => "SHL",
            Self::SNER { .. } => "SNER",
            Self::LDA { .. } => "LDA",
            Self::JPO { .. } => "JPO",
            Self::RND { .. } => "RND",
            Self::DRW { .. } => "DRW",
            Self::SKP { .. } => "SKP",
            Self::SKNP { .. } => "SKNP",
            Self::LDDT { .. } => "LDDT",
            Self::LDKP { .. } => "LDKP",
            Self::STDT { .. } => "STDT",
            Self::STST { .. } => "STST",
            Self::ADDA { .. } => "ADDA",
            Self::LDSA { .. } => "LDSA",
            Self::STDR { .. } => "STDR",
            Self::STRR { .. } => "STRR",
            Self::LDRR { .. } => "LDRR",
            Self::INV { .. } => "INV",
        }
    }
}

} // verus!

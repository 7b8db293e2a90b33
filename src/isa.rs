//! The instruction set: opcodes, decoded instructions, and the decoder from
//! 32-bit instruction words.
use vstd::prelude::*;
use vstd::arithmetic::power2::{pow2, lemma2_to64, lemma_pow2_unfold};
use vstd::bits::lemma_u32_shl_is_mul;

verus! {

/// Number of general-purpose registers; register 0 always reads as zero.
pub const REG_COUNT: usize = 32;

/// The operation kind of an instruction.
#[derive(Debug, Clone, Copy, PartialEq, Eq, Structural)]
pub enum Opcode {
    ADD,
    SUB,
    MUL,
    DIV,
    ADDI,
    LW,
    SW,
    BEQ,
    BNE,
    JAL,
    HALT,
    UNKNOWN,
}

/// A decoded instruction: an opcode, three register indices and a
/// sign-extended immediate.
#[derive(Debug, Clone, Copy, PartialEq, Eq, Structural)]
pub struct Instruction {
    pub opcode: Opcode,
    pub rd: usize,
    pub rs1: usize,
    pub rs2: usize,
    pub imm: i32,
}

/// Bits 6..0 of a word: the opcode selector.
pub open spec fn selector(w: u32) -> u32 {
    w & 0x7f
}

/// Bits 11..7: the destination register.
pub open spec fn rd_field(w: u32) -> u32 {
    (w >> 7) & 0x1f
}

/// Bits 14..12: the operation sub-selector.
pub open spec fn funct_field(w: u32) -> u32 {
    (w >> 12) & 0x7
}

/// Bits 19..15: the first source register.
pub open spec fn rs1_field(w: u32) -> u32 {
    (w >> 15) & 0x1f
}

/// Bits 24..20: the second source register.
pub open spec fn rs2_field(w: u32) -> u32 {
    (w >> 20) & 0x1f
}

/// Bit 30: tells subtract from add.
pub open spec fn bit30(w: u32) -> u32 {
    (w >> 30) & 1
}

/// The I-type immediate pattern: bits 31..20 (12 bits).
pub open spec fn imm_i_bits(w: u32) -> u32 {
    w >> 20
}

/// The S-type immediate pattern: bits 31..25 above bits 11..7 (12 bits).
pub open spec fn imm_s_bits(w: u32) -> u32 {
    (((w >> 25) & 0x7f) << 5) | ((w >> 7) & 0x1f)
}

/// The B-type immediate pattern: bit 31, bit 7, bits 30..25, bits 11..8, then a
/// zero bit (13 bits).
pub open spec fn imm_b_bits(w: u32) -> u32 {
    (((w >> 31) & 1) << 12) | (((w >> 7) & 1) << 11) | (((w >> 25) & 0x3f) << 5) | (((w
        >> 8) & 0xf) << 1)
}

/// The J-type immediate pattern: bit 31, bits 19..12, bit 20, bits 30..21, then
/// a zero bit (21 bits).
pub open spec fn imm_j_bits(w: u32) -> u32 {
    (((w >> 31) & 1) << 20) | (((w >> 12) & 0xff) << 12) | (((w >> 20) & 1) << 11) | (((w
        >> 21) & 0x3ff) << 1)
}

/// The value of `v` read as a two's-complement number of `width` bits.
pub open spec fn sign_extend(v: u32, width: nat) -> int {
    if v >= pow2((width - 1) as nat) {
        v - pow2(width)
    } else {
        v as int
    }
}

/// The instruction that a word stands for.
pub open spec fn decode_spec(w: u32) -> Instruction {
    let rd = rd_field(w) as usize;
    let rs1 = rs1_field(w) as usize;
    let rs2 = rs2_field(w) as usize;
    let sel = selector(w);
    if sel == 0x33 {
        let op = if bit30(w) == 1 {
            Opcode::SUB
        } else {
            Opcode::ADD
        };
        Instruction { opcode: op, rd, rs1, rs2, imm: 0 }
    } else if sel == 0x13 {
        Instruction { opcode: Opcode::ADDI, rd, rs1, rs2: 0, imm: sign_extend(imm_i_bits(w), 12) as i32 }
    } else if sel == 0x03 {
        Instruction { opcode: Opcode::LW, rd, rs1, rs2: 0, imm: sign_extend(imm_i_bits(w), 12) as i32 }
    } else if sel == 0x23 {
        Instruction { opcode: Opcode::SW, rd: 0, rs1, rs2, imm: sign_extend(imm_s_bits(w), 12) as i32 }
    } else if sel == 0x63 {
        let op = if funct_field(w) == 0 {
            Opcode::BEQ
        } else {
            Opcode::BNE
        };
        Instruction { opcode: op, rd: 0, rs1, rs2, imm: sign_extend(imm_b_bits(w), 13) as i32 }
    } else if sel == 0x6f {
        Instruction { opcode: Opcode::JAL, rd, rs1: 0, rs2: 0, imm: sign_extend(imm_j_bits(w), 21) as i32 }
    } else if sel == 0x7b {
        Instruction { opcode: Opcode::HALT, rd: 0, rs1: 0, rs2: 0, imm: 0 }
    } else {
        Instruction { opcode: Opcode::UNKNOWN, rd: 0, rs1: 0, rs2: 0, imm: 0 }
    }
}

/// The `width`-bit two's-complement pattern of `offset`.
pub open spec fn offset_bits(offset: int, width: nat) -> u32 {
    (if offset < 0 {
        offset + pow2(width)
    } else {
        offset
    }) as u32
}

/// The branch word with sub-selector `funct`, registers `rs1` and `rs2`, and a
/// byte offset `offset` scattered over the B-type immediate bits.
pub open spec fn encode_branch(funct: u32, rs1: u32, rs2: u32, offset: int) -> u32 {
    let u = offset_bits(offset, 13);
    (((u >> 12) & 1) << 31) | (((u >> 5) & 0x3f) << 25) | (rs2 << 20) | (rs1 << 15) | (funct
        << 12) | (((u >> 1) & 0xf) << 8) | (((u >> 11) & 1) << 7) | 0x63
}

/// The jump-and-link word with destination `rd` and a byte offset `offset`
/// scattered over the J-type immediate bits.
pub open spec fn encode_jump(rd: u32, offset: int) -> u32 {
    let u = offset_bits(offset, 21);
    (((u >> 20) & 1) << 31) | (((u >> 1) & 0x3ff) << 21) | (((u >> 11) & 1) << 20) | (((u
        >> 12) & 0xff) << 12) | (rd << 7) | 0x6f
}

/// Decoding an encoded branch gives back its condition, its registers and its
/// offset, for every even offset in [-4096, 4096).
pub proof fn lemma_branch_round_trip(funct: u32, rs1: u32, rs2: u32, offset: int)
    requires
        funct < 8,
        rs1 < 32,
        rs2 < 32,
        -4096 <= offset < 4096,
        offset % 2 == 0,
    ensures
        decode_spec(encode_branch(funct, rs1, rs2, offset)) == (Instruction {
            opcode: if funct == 0 {
                Opcode::BEQ
            } else {
                Opcode::BNE
            },
            rd: 0,
            rs1: rs1 as usize,
            rs2: rs2 as usize,
            imm: offset as i32,
        }),
{
    lemma2_to64();
    let u = offset_bits(offset, 13);
    assert(u < 8192 && u % 2 == 0);
    let w = encode_branch(funct, rs1, rs2, offset);
    assert(selector(w) == 0x63 && funct_field(w) == funct && rs1_field(w) == rs1 && rs2_field(w)
        == rs2 && imm_b_bits(w) == u) by (bit_vector)
        requires
            u < 8192,
            u % 2 == 0,
            funct < 8,
            rs1 < 32,
            rs2 < 32,
            w == (((u >> 12) & 1) << 31) | (((u >> 5) & 0x3f) << 25) | (rs2 << 20) | (rs1 << 15)
                | (funct << 12) | (((u >> 1) & 0xf) << 8) | (((u >> 11) & 1) << 7) | 0x63,
    ;
    assert(sign_extend(u, 13) == offset);
}

/// Decoding an encoded jump-and-link gives back its destination and its
/// offset, for every even offset in [-2^20, 2^20).
pub proof fn lemma_jump_round_trip(rd: u32, offset: int)
    requires
        rd < 32,
        -0x10_0000 <= offset < 0x10_0000,
        offset % 2 == 0,
    ensures
        decode_spec(encode_jump(rd, offset)) == (Instruction {
            opcode: Opcode::JAL,
            rd: rd as usize,
            rs1: 0,
            rs2: 0,
            imm: offset as i32,
        }),
{
    lemma2_to64();
    let u = offset_bits(offset, 21);
    assert(u < 0x20_0000 && u % 2 == 0);
    let w = encode_jump(rd, offset);
    assert(selector(w) == 0x6f && rd_field(w) == rd && imm_j_bits(w) == u) by (bit_vector)
        requires
            u < 0x20_0000,
            u % 2 == 0,
            rd < 32,
            w == (((u >> 20) & 1) << 31) | (((u >> 1) & 0x3ff) << 21) | (((u >> 11) & 1) << 20)
                | (((u >> 12) & 0xff) << 12) | (rd << 7) | 0x6f,
    ;
    assert(sign_extend(u, 21) == offset);
}

/// Reads the low `width` bits of `v` as a two's-complement number.
fn sign_extend_exec(v: u32, width: u32) -> (r: i32)
    requires
        width == 12 || width == 13 || width == 21,
        v < pow2(width as nat),
    ensures
        r as int == sign_extend(v, width as nat),
{
    proof {
        lemma2_to64();
        lemma_u32_shl_is_mul(1, (width - 1) as u32);
        lemma_pow2_unfold(width as nat);
    }
    let half: u32 = 1u32 << (width - 1);
    if v >= half {
        (v - half) as i32 - half as i32
    } else {
        v as i32
    }
}

impl Instruction {
    /// Every register index names one of the registers.
    pub open spec fn wf(&self) -> bool {
        self.rd < REG_COUNT && self.rs1 < REG_COUNT && self.rs2 < REG_COUNT
    }

    /// An instruction of three registers and no immediate.
    pub fn new_r_type(opcode: Opcode, rd: usize, rs1: usize, rs2: usize) -> (r: Self)
        ensures
            r == (Instruction { opcode, rd, rs1, rs2, imm: 0 }),
    {
        Instruction { opcode, rd, rs1, rs2, imm: 0 }
    }

    /// An instruction of a destination, one source and an immediate.
    pub fn new_i_type(opcode: Opcode, rd: usize, rs1: usize, imm: i32) -> (r: Self)
        ensures
            r == (Instruction { opcode, rd, rs1, rs2: 0, imm }),
    {
        Instruction { opcode, rd, rs1, rs2: 0, imm }
    }

    /// A store: `rs1` holds the base address, `rs2` the value, `imm` the offset.
    pub fn new_s_type(opcode: Opcode, rs1: usize, rs2: usize, imm: i32) -> (r: Self)
        ensures
            r == (Instruction { opcode, rd: 0, rs1, rs2, imm }),
    {
        Instruction { opcode, rd: 0, rs1, rs2, imm }
    }

    /// A conditional branch comparing `rs1` with `rs2`, to a byte offset `imm`.
    pub fn new_b_type(opcode: Opcode, rs1: usize, rs2: usize, imm: i32) -> (r: Self)
        ensures
            r == (Instruction { opcode, rd: 0, rs1, rs2, imm }),
    {
        Instruction { opcode, rd: 0, rs1, rs2, imm }
    }

    /// A jump to a byte offset `imm` that links into `rd`.
    pub fn new_j_type(opcode: Opcode, rd: usize, imm: i32) -> (r: Self)
        ensures
            r == (Instruction { opcode, rd, rs1: 0, rs2: 0, imm }),
    {
        Instruction { opcode, rd, rs1: 0, rs2: 0, imm }
    }

    /// Decodes a 32-bit word. Every word gives an instruction; a selector
    /// outside the table gives `UNKNOWN`.
    pub fn decode(word: u32) -> (r: Self)
        ensures
            r == decode_spec(word),
            r.wf(),
    {
        proof {
            lemma2_to64();
        }
        let sel = word & 0x7f;
        let rd = ((word >> 7) & 0x1f) as usize;
        let funct = (word >> 12) & 0x7;
        let rs1 = ((word >> 15) & 0x1f) as usize;
        let rs2 = ((word >> 20) & 0x1f) as usize;
        assert(word >> 20 < 4096) by (bit_vector);
        assert(imm_s_bits(word) < 4096) by (bit_vector);
        assert(imm_b_bits(word) < 8192) by (bit_vector);
        assert(imm_j_bits(word) < 0x200000) by (bit_vector);
        assert((word >> 7) & 0x1f < 32 && (word >> 15) & 0x1f < 32 && (word >> 20) & 0x1f < 32)
            by (bit_vector);
        let imm_i = sign_extend_exec(word >> 20, 12);
        let s_bits = (((word >> 25) & 0x7f) << 5) | ((word >> 7) & 0x1f);
        let imm_s = sign_extend_exec(s_bits, 12);
        let b_bits = (((word >> 31) & 1) << 12) | (((word >> 7) & 1) << 11) | (((word >> 25)
            & 0x3f) << 5) | (((word >> 8) & 0xf) << 1);
        let imm_b = sign_extend_exec(b_bits, 13);
        let j_bits = (((word >> 31) & 1) << 20) | (((word >> 12) & 0xff) << 12) | (((word >> 20)
            & 1) << 11) | (((word >> 21) & 0x3ff) << 1);
        let imm_j = sign_extend_exec(j_bits, 21);
        if sel == 0x33 {
            if (word >> 30) & 1 == 1 {
                Instruction::new_r_type(Opcode::SUB, rd, rs1, rs2)
            } else {
                Instruction::new_r_type(Opcode::ADD, rd, rs1, rs2)
            }
        } else if sel == 0x13 {
            Instruction::new_i_type(Opcode::ADDI, rd, rs1, imm_i)
        } else if sel == 0x03 {
            Instruction::new_i_type(Opcode::LW, rd, rs1, imm_i)
        } else if sel == 0x23 {
            Instruction::new_s_type(Opcode::SW, rs1, rs2, imm_s)
        } else if sel == 0x63 {
            if funct == 0 {
                Instruction::new_b_type(Opcode::BEQ, rs1, rs2, imm_b)
            } else {
                Instruction::new_b_type(Opcode::BNE, rs1, rs2, imm_b)
            }
        } else if sel == 0x6f {
            Instruction::new_j_type(Opcode::JAL, rd, imm_j)
        } else if sel == 0x7b {
            Instruction::new_i_type(Opcode::HALT, 0, 0, 0)
        } else {
            Instruction { opcode: Opcode::UNKNOWN, rd: 0, rs1: 0, rs2: 0, imm: 0 }
        }
    }
}

} // verus!

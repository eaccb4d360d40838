//! The instruction set: a tagged variant per opcode, carrying only the
//! operand fields that the opcode's encoding defines.

use vstd::prelude::*;

verus! {

/// One of the ten register slots: eight general-purpose registers
/// (indices 0-7), the program counter (index 8) and the condition-flags
/// register (index 9).
#[derive(Clone, Copy, Debug, PartialEq, Eq, Structural)]
pub struct Register(pub u16);

impl Register {
    /// A register that an instruction operand field can name: one of
    /// the eight general-purpose slots.
    pub open spec fn wf(self) -> bool {
        self.0 < 8
    }
}

/// Sign extension of the low 5 bits of a word.
pub open spec fn sext5(w: u16) -> u16 {
    if w & 0x10 == 0 {
        w & 0x1F
    } else {
        (w & 0x1F) | 0xFFE0
    }
}

/// Sign extension of the low 6 bits of a word.
pub open spec fn sext6(w: u16) -> u16 {
    if w & 0x20 == 0 {
        w & 0x3F
    } else {
        (w & 0x3F) | 0xFFC0
    }
}

/// Sign extension of the low 9 bits of a word.
pub open spec fn sext9(w: u16) -> u16 {
    if w & 0x100 == 0 {
        w & 0x1FF
    } else {
        (w & 0x1FF) | 0xFE00
    }
}

/// Sign extension of the low 11 bits of a word.
pub open spec fn sext11(w: u16) -> u16 {
    if w & 0x400 == 0 {
        w & 0x7FF
    } else {
        (w & 0x7FF) | 0xF800
    }
}

/// The second operand of ADD and AND: a register, or an immediate that
/// the decoder has already sign-extended from its 5-bit field.
#[derive(Clone, Copy, Debug, PartialEq, Eq, Structural)]
pub enum Argument {
    Register(Register),
    Immediate(u16),
}

impl Argument {
    pub open spec fn wf(self) -> bool {
        match self {
            Argument::Register(r) => r.wf(),
            Argument::Immediate(imm) => imm == sext5(imm),
        }
    }
}

/// A decoded instruction. Every value of this type can be re-derived by
/// the decoder from some valid 16-bit encoding (see `wf` and the
/// encode/parse round trip in `ops_parse`).
#[derive(Clone, Copy, Debug, PartialEq, Eq, Structural)]
pub enum Operation {
    OpAdd { dr: Register, sr1: Register, arg: Argument },
    OpAnd { dr: Register, sr1: Register, arg: Argument },
    OpBr { n: bool, z: bool, p: bool, pc_offset: u16 },
    OpJmp { base_r: Register },
    OpJsr { pc_offset: u16 },
    OpJsrr { base_r: Register },
    OpLd { dr: Register, pc_offset: u16 },
    OpLdi { dr: Register, pc_offset: u16 },
    OpLdr { dr: Register, base_r: Register, offset: u16 },
    OpLea { dr: Register, pc_offset: u16 },
    OpNot { dr: Register, sr: Register },
    OpRti,
    OpSt { sr: Register, pc_offset: u16 },
    OpSti { sr: Register, pc_offset: u16 },
    OpStr { sr: Register, base_r: Register, offset: u16 },
    OpTrap { trap_vector: u16 },
}

impl Operation {
    /// Structural validity: each register field names a general-purpose
    /// register, each offset or immediate is the sign extension of its
    /// encoded field, and a trap vector fits in 8 bits. The decoder
    /// only produces such values, and every such value has an encoding.
    pub open spec fn wf(self) -> bool {
        match self {
            Operation::OpAdd { dr, sr1, arg } => dr.wf() && sr1.wf() && arg.wf(),
            Operation::OpAnd { dr, sr1, arg } => dr.wf() && sr1.wf() && arg.wf(),
            Operation::OpBr { n, z, p, pc_offset } => pc_offset == sext9(pc_offset),
            Operation::OpJmp { base_r } => base_r.wf(),
            Operation::OpJsr { pc_offset } => pc_offset == sext11(pc_offset),
            Operation::OpJsrr { base_r } => base_r.wf(),
            Operation::OpLd { dr, pc_offset } => dr.wf() && pc_offset == sext9(pc_offset),
            Operation::OpLdi { dr, pc_offset } => dr.wf() && pc_offset == sext9(pc_offset),
            Operation::OpLdr { dr, base_r, offset } => dr.wf() && base_r.wf() && offset == sext6(
                offset,
            ),
            Operation::OpLea { dr, pc_offset } => dr.wf() && pc_offset == sext9(pc_offset),
            Operation::OpNot { dr, sr } => dr.wf() && sr.wf(),
            Operation::OpRti => true,
            Operation::OpSt { sr, pc_offset } => sr.wf() && pc_offset == sext9(pc_offset),
            Operation::OpSti { sr, pc_offset } => sr.wf() && pc_offset == sext9(pc_offset),
            Operation::OpStr { sr, base_r, offset } => sr.wf() && base_r.wf() && offset == sext6(
                offset,
            ),
            Operation::OpTrap { trap_vector } => trap_vector < 0x100,
        }
    }

    /// Whether this instruction updates the condition flags from the
    /// value it writes.
    pub open spec fn affects_flags(self) -> bool {
        match self {
            Operation::OpAdd { .. } => true,
            Operation::OpAnd { .. } => true,
            Operation::OpLd { .. } => true,
            Operation::OpLdi { .. } => true,
            Operation::OpLdr { .. } => true,
            Operation::OpLea { .. } => true,
            Operation::OpNot { .. } => true,
            _ => false,
        }
    }

    /// The destination register of a flag-affecting instruction.
    pub open spec fn dest_reg(self) -> Register {
        match self {
            Operation::OpAdd { dr, .. } => dr,
            Operation::OpAnd { dr, .. } => dr,
            Operation::OpLd { dr, .. } => dr,
            Operation::OpLdi { dr, .. } => dr,
            Operation::OpLdr { dr, .. } => dr,
            Operation::OpLea { dr, .. } => dr,
            Operation::OpNot { dr, .. } => dr,
            _ => Register(0),
        }
    }
}

} // verus!

//! The decoder: a pure function from a 16-bit word to a tagged
//! instruction, and its inverse, a canonical encoder. The opcode sits
//! in the top 4 bits; the remaining fields are packed as the
//! architecture defines them, with immediates and offsets
//! sign-extended from 5-, 6-, 9- or 11-bit fields.

use vstd::prelude::*;

use crate::ops::Argument;
use crate::ops::Operation;
use crate::ops::Register;
use crate::ops::sext11;
use crate::ops::sext5;
use crate::ops::sext6;
use crate::ops::sext9;

verus! {

/// A decode failure: the word's top 4 bits name no known opcode. The
/// offending word is carried for diagnosis.
#[derive(Clone, Copy, Debug, PartialEq, Eq, Structural)]
pub enum ParseError {
    UnknownOpcode(u16),
}

/// What the decoder returns on each word: the bit layout of the
/// instruction set, stated once and shared by the executable decoder,
/// the encoder and the engine's contracts.
pub open spec fn parse_spec(w: u16) -> Result<Operation, ParseError> {
    match w >> 12 {
        0 => Ok(
            Operation::OpBr {
                n: w & 0x800 != 0,
                z: w & 0x400 != 0,
                p: w & 0x200 != 0,
                pc_offset: sext9(w),
            },
        ),
        1 => Ok(
            Operation::OpAdd {
                dr: Register((w >> 9) & 7),
                sr1: Register((w >> 6) & 7),
                arg: if w & 0x20 == 0 {
                    Argument::Register(Register(w & 7))
                } else {
                    Argument::Immediate(sext5(w))
                },
            },
        ),
        2 => Ok(Operation::OpLd { dr: Register((w >> 9) & 7), pc_offset: sext9(w) }),
        3 => Ok(Operation::OpSt { sr: Register((w >> 9) & 7), pc_offset: sext9(w) }),
        4 => if w & 0x800 != 0 {
            Ok(Operation::OpJsr { pc_offset: sext11(w) })
        } else {
            Ok(Operation::OpJsrr { base_r: Register((w >> 6) & 7) })
        },
        5 => Ok(
            Operation::OpAnd {
                dr: Register((w >> 9) & 7),
                sr1: Register((w >> 6) & 7),
                arg: if w & 0x20 == 0 {
                    Argument::Register(Register(w & 7))
                } else {
                    Argument::Immediate(sext5(w))
                },
            },
        ),
        6 => Ok(
            Operation::OpLdr {
                dr: Register((w >> 9) & 7),
                base_r: Register((w >> 6) & 7),
                offset: sext6(w),
            },
        ),
        7 => Ok(
            Operation::OpStr {
                sr: Register((w >> 9) & 7),
                base_r: Register((w >> 6) & 7),
                offset: sext6(w),
            },
        ),
        8 => Ok(Operation::OpRti),
        9 => Ok(Operation::OpNot { dr: Register((w >> 9) & 7), sr: Register((w >> 6) & 7) }),
        10 => Ok(Operation::OpLdi { dr: Register((w >> 9) & 7), pc_offset: sext9(w) }),
        11 => Ok(Operation::OpSti { sr: Register((w >> 9) & 7), pc_offset: sext9(w) }),
        12 => Ok(Operation::OpJmp { base_r: Register((w >> 6) & 7) }),
        14 => Ok(Operation::OpLea { dr: Register((w >> 9) & 7), pc_offset: sext9(w) }),
        15 => Ok(Operation::OpTrap { trap_vector: w & 0xFF }),
        _ => Err(ParseError::UnknownOpcode(w)),
    }
}

/// The canonical encoding of an instruction: the word from which the
/// decoder re-derives it. Bits the decoder ignores are zero, except
/// NOT's low 6 bits, which the architecture fixes at all-ones.
pub open spec fn encode_spec(op: Operation) -> u16 {
    match op {
        Operation::OpBr { n, z, p, pc_offset } => (if n {
            0x800u16
        } else {
            0u16
        }) | (if z {
            0x400u16
        } else {
            0u16
        }) | (if p {
            0x200u16
        } else {
            0u16
        }) | (pc_offset & 0x1FF),
        Operation::OpAdd { dr, sr1, arg } => match arg {
            Argument::Register(sr2) => 0x1000u16 | (dr.0 << 9) | (sr1.0 << 6) | sr2.0,
            Argument::Immediate(imm) => 0x1000u16 | (dr.0 << 9) | (sr1.0 << 6) | 0x20 | (imm
                & 0x1F),
        },
        Operation::OpLd { dr, pc_offset } => 0x2000u16 | (dr.0 << 9) | (pc_offset & 0x1FF),
        Operation::OpSt { sr, pc_offset } => 0x3000u16 | (sr.0 << 9) | (pc_offset & 0x1FF),
        Operation::OpJsr { pc_offset } => 0x4800u16 | (pc_offset & 0x7FF),
        Operation::OpJsrr { base_r } => 0x4000u16 | (base_r.0 << 6),
        Operation::OpAnd { dr, sr1, arg } => match arg {
            Argument::Register(sr2) => 0x5000u16 | (dr.0 << 9) | (sr1.0 << 6) | sr2.0,
            Argument::Immediate(imm) => 0x5000u16 | (dr.0 << 9) | (sr1.0 << 6) | 0x20 | (imm
                & 0x1F),
        },
        Operation::OpLdr { dr, base_r, offset } => 0x6000u16 | (dr.0 << 9) | (base_r.0 << 6) | (
        offset & 0x3F),
        Operation::OpStr { sr, base_r, offset } => 0x7000u16 | (sr.0 << 9) | (base_r.0 << 6) | (
        offset & 0x3F),
        Operation::OpRti => 0x8000u16,
        Operation::OpNot { dr, sr } => 0x9000u16 | (dr.0 << 9) | (sr.0 << 6) | 0x3F,
        Operation::OpLdi { dr, pc_offset } => 0xA000u16 | (dr.0 << 9) | (pc_offset & 0x1FF),
        Operation::OpSti { sr, pc_offset } => 0xB000u16 | (sr.0 << 9) | (pc_offset & 0x1FF),
        Operation::OpJmp { base_r } => 0xC000u16 | (base_r.0 << 6),
        Operation::OpLea { dr, pc_offset } => 0xE000u16 | (dr.0 << 9) | (pc_offset & 0x1FF),
        Operation::OpTrap { trap_vector } => 0xF000u16 | (trap_vector & 0xFF),
    }
}

impl Operation {
    /// Decode a 16-bit word. Fails exactly on the words whose top 4
    /// bits name no opcode.
    pub fn parse(w: u16) -> (r: Result<Operation, ParseError>)
        ensures
            r == parse_spec(w),
    {
        match w >> 12 {
            0 => Ok(
                Operation::OpBr {
                    n: w & 0x800 != 0,
                    z: w & 0x400 != 0,
                    p: w & 0x200 != 0,
                    pc_offset: sext9_exec(w),
                },
            ),
            1 => Ok(
                Operation::OpAdd {
                    dr: Register((w >> 9) & 7),
                    sr1: Register((w >> 6) & 7),
                    arg: if w & 0x20 == 0 {
                        Argument::Register(Register(w & 7))
                    } else {
                        Argument::Immediate(sext5_exec(w))
                    },
                },
            ),
            2 => Ok(Operation::OpLd { dr: Register((w >> 9) & 7), pc_offset: sext9_exec(w) }),
            3 => Ok(Operation::OpSt { sr: Register((w >> 9) & 7), pc_offset: sext9_exec(w) }),
            4 => if w & 0x800 != 0 {
                Ok(Operation::OpJsr { pc_offset: sext11_exec(w) })
            } else {
                Ok(Operation::OpJsrr { base_r: Register((w >> 6) & 7) })
            },
            5 => Ok(
                Operation::OpAnd {
                    dr: Register((w >> 9) & 7),
                    sr1: Register((w >> 6) & 7),
                    arg: if w & 0x20 == 0 {
                        Argument::Register(Register(w & 7))
                    } else {
                        Argument::Immediate(sext5_exec(w))
                    },
                },
            ),
            6 => Ok(
                Operation::OpLdr {
                    dr: Register((w >> 9) & 7),
                    base_r: Register((w >> 6) & 7),
                    offset: sext6_exec(w),
                },
            ),
            7 => Ok(
                Operation::OpStr {
                    sr: Register((w >> 9) & 7),
                    base_r: Register((w >> 6) & 7),
                    offset: sext6_exec(w),
                },
            ),
            8 => Ok(Operation::OpRti),
            9 => Ok(Operation::OpNot { dr: Register((w >> 9) & 7), sr: Register((w >> 6) & 7) }),
            10 => Ok(Operation::OpLdi { dr: Register((w >> 9) & 7), pc_offset: sext9_exec(w) }),
            11 => Ok(Operation::OpSti { sr: Register((w >> 9) & 7), pc_offset: sext9_exec(w) }),
            12 => Ok(Operation::OpJmp { base_r: Register((w >> 6) & 7) }),
            14 => Ok(Operation::OpLea { dr: Register((w >> 9) & 7), pc_offset: sext9_exec(w) }),
            15 => Ok(Operation::OpTrap { trap_vector: w & 0xFF }),
            _ => Err(ParseError::UnknownOpcode(w)),
        }
    }

    /// Encode an instruction into its canonical word.
    pub fn encode(&self) -> (w: u16)
        ensures
            w == encode_spec(*self),
            self.wf() ==> parse_spec(w) == Ok::<Operation, ParseError>(*self),
    {
        proof {
            if self.wf() {
                lemma_encode_parse(*self);
            }
        }
        match *self {
            Operation::OpBr { n, z, p, pc_offset } => (if n {
                0x800u16
            } else {
                0u16
            }) | (if z {
                0x400u16
            } else {
                0u16
            }) | (if p {
                0x200u16
            } else {
                0u16
            }) | (pc_offset & 0x1FF),
            Operation::OpAdd { dr, sr1, arg } => match arg {
                Argument::Register(sr2) => 0x1000u16 | (dr.0 << 9) | (sr1.0 << 6) | sr2.0,
                Argument::Immediate(imm) => 0x1000u16 | (dr.0 << 9) | (sr1.0 << 6) | 0x20 | (imm
                    & 0x1F),
            },
            Operation::OpLd { dr, pc_offset } => 0x2000u16 | (dr.0 << 9) | (pc_offset & 0x1FF),
            Operation::OpSt { sr, pc_offset } => 0x3000u16 | (sr.0 << 9) | (pc_offset & 0x1FF),
            Operation::OpJsr { pc_offset } => 0x4800u16 | (pc_offset & 0x7FF),
            Operation::OpJsrr { base_r } => 0x4000u16 | (base_r.0 << 6),
            Operation::OpAnd { dr, sr1, arg } => match arg {
                Argument::Register(sr2) => 0x5000u16 | (dr.0 << 9) | (sr1.0 << 6) | sr2.0,
                Argument::Immediate(imm) => 0x5000u16 | (dr.0 << 9) | (sr1.0 << 6) | 0x20 | (imm
                    & 0x1F),
            },
            Operation::OpLdr { dr, base_r, offset } => 0x6000u16 | (dr.0 << 9) | (base_r.0 << 6) | (
            offset & 0x3F),
            Operation::OpStr { sr, base_r, offset } => 0x7000u16 | (sr.0 << 9) | (base_r.0 << 6) | (
            offset & 0x3F),
            Operation::OpRti => 0x8000u16,
            Operation::OpNot { dr, sr } => 0x9000u16 | (dr.0 << 9) | (sr.0 << 6) | 0x3F,
            Operation::OpLdi { dr, pc_offset } => 0xA000u16 | (dr.0 << 9) | (pc_offset & 0x1FF),
            Operation::OpSti { sr, pc_offset } => 0xB000u16 | (sr.0 << 9) | (pc_offset & 0x1FF),
            Operation::OpJmp { base_r } => 0xC000u16 | (base_r.0 << 6),
            Operation::OpLea { dr, pc_offset } => 0xE000u16 | (dr.0 << 9) | (pc_offset & 0x1FF),
            Operation::OpTrap { trap_vector } => 0xF000u16 | (trap_vector & 0xFF),
        }
    }
}

/// Sign extension of the low 5 bits, executable form.
fn sext5_exec(w: u16) -> (r: u16)
    ensures
        r == sext5(w),
{
    if w & 0x10 == 0 {
        w & 0x1F
    } else {
        (w & 0x1F) | 0xFFE0
    }
}

/// Sign extension of the low 6 bits, executable form.
fn sext6_exec(w: u16) -> (r: u16)
    ensures
        r == sext6(w),
{
    if w & 0x20 == 0 {
        w & 0x3F
    } else {
        (w & 0x3F) | 0xFFC0
    }
}

/// Sign extension of the low 9 bits, executable form.
fn sext9_exec(w: u16) -> (r: u16)
    ensures
        r == sext9(w),
{
    if w & 0x100 == 0 {
        w & 0x1FF
    } else {
        (w & 0x1FF) | 0xFE00
    }
}

/// Sign extension of the low 11 bits, executable form.
fn sext11_exec(w: u16) -> (r: u16)
    ensures
        r == sext11(w),
{
    if w & 0x400 == 0 {
        w & 0x7FF
    } else {
        (w & 0x7FF) | 0xF800
    }
}

/// Every successfully decoded instruction is structurally valid: its
/// register fields name general-purpose registers, its offsets and
/// immediates are fixed by sign extension, and its trap vector fits in
/// 8 bits.
pub proof fn lemma_parse_wf(w: u16)
    ensures
        parse_spec(w) matches Ok(op) ==> op.wf(),
{
    assert((w >> 9) & 7 < 8 && (w >> 6) & 7 < 8 && w & 7 < 8 && sext5(w) == sext5(sext5(w))
        && sext6(w) == sext6(sext6(w)) && sext9(w) == sext9(sext9(w)) && sext11(w) == sext11(
        sext11(w),
    ) && w & 0xFF < 0x100) by (bit_vector);
}

/// Round trip: encoding a structurally valid instruction and decoding
/// the resulting word yields the same instruction.
pub proof fn lemma_encode_parse(op: Operation)
    requires
        op.wf(),
    ensures
        parse_spec(encode_spec(op)) == Ok::<Operation, ParseError>(op),
{
    match op {
        Operation::OpBr { n, z, p, pc_offset } => {
            let k = pc_offset;
            let nb: u16 = if n {
                0x800
            } else {
                0
            };
            let zb: u16 = if z {
                0x400
            } else {
                0
            };
            let pb: u16 = if p {
                0x200
            } else {
                0
            };
            assert({
                let w = nb | zb | pb | (k & 0x1FF);
                w >> 12 == 0 && (w & 0x800 != 0) == (nb == 0x800) && (w & 0x400 != 0) == (zb
                    == 0x400) && (w & 0x200 != 0) == (pb == 0x200) && sext9(w) == k
            }) by (bit_vector)
                requires
                    k == sext9(k),
                    nb == 0x800 || nb == 0,
                    zb == 0x400 || zb == 0,
                    pb == 0x200 || pb == 0,
            ;
        },
        Operation::OpAdd { dr, sr1, arg } => {
            let d = dr.0;
            let s = sr1.0;
            match arg {
                Argument::Register(sr2) => {
                    let t = sr2.0;
                    assert({
                        let w = 0x1000u16 | (d << 9) | (s << 6) | t;
                        w >> 12 == 1 && w & 0x20 == 0 && (w >> 9) & 7 == d && (w >> 6) & 7 == s && w
                            & 7 == t
                    }) by (bit_vector)
                        requires
                            d < 8,
                            s < 8,
                            t < 8,
                    ;
                },
                Argument::Immediate(imm) => {
                    assert({
                        let w = 0x1000u16 | (d << 9) | (s << 6) | 0x20 | (imm & 0x1F);
                        w >> 12 == 1 && w & 0x20 != 0 && (w >> 9) & 7 == d && (w >> 6) & 7 == s
                            && sext5(w) == imm
                    }) by (bit_vector)
                        requires
                            d < 8,
                            s < 8,
                            imm == sext5(imm),
                    ;
                },
            }
        },
        Operation::OpAnd { dr, sr1, arg } => {
            let d = dr.0;
            let s = sr1.0;
            match arg {
                Argument::Register(sr2) => {
                    let t = sr2.0;
                    assert({
                        let w = 0x5000u16 | (d << 9) | (s << 6) | t;
                        w >> 12 == 5 && w & 0x20 == 0 && (w >> 9) & 7 == d && (w >> 6) & 7 == s && w
                            & 7 == t
                    }) by (bit_vector)
                        requires
                            d < 8,
                            s < 8,
                            t < 8,
                    ;
                },
                Argument::Immediate(imm) => {
                    assert({
                        let w = 0x5000u16 | (d << 9) | (s << 6) | 0x20 | (imm & 0x1F);
                        w >> 12 == 5 && w & 0x20 != 0 && (w >> 9) & 7 == d && (w >> 6) & 7 == s
                            && sext5(w) == imm
                    }) by (bit_vector)
                        requires
                            d < 8,
                            s < 8,
                            imm == sext5(imm),
                    ;
                },
            }
        },
        Operation::OpJmp { base_r } => {
            let b = base_r.0;
            assert({
                let w = 0xC000u16 | (b << 6);
                w >> 12 == 12 && (w >> 6) & 7 == b
            }) by (bit_vector)
                requires
                    b < 8,
            ;
        },
        Operation::OpJsr { pc_offset } => {
            let k = pc_offset;
            assert({
                let w = 0x4800u16 | (k & 0x7FF);
                w >> 12 == 4 && w & 0x800 != 0 && sext11(w) == k
            }) by (bit_vector)
                requires
                    k == sext11(k),
            ;
        },
        Operation::OpJsrr { base_r } => {
            let b = base_r.0;
            assert({
                let w = 0x4000u16 | (b << 6);
                w >> 12 == 4 && w & 0x800 == 0 && (w >> 6) & 7 == b
            }) by (bit_vector)
                requires
                    b < 8,
            ;
        },
        Operation::OpLd { dr, pc_offset } => {
            let d = dr.0;
            let k = pc_offset;
            assert({
                let w = 0x2000u16 | (d << 9) | (k & 0x1FF);
                w >> 12 == 2 && (w >> 9) & 7 == d && sext9(w) == k
            }) by (bit_vector)
                requires
                    d < 8,
                    k == sext9(k),
            ;
        },
        Operation::OpLdi { dr, pc_offset } => {
            let d = dr.0;
            let k = pc_offset;
            assert({
                let w = 0xA000u16 | (d << 9) | (k & 0x1FF);
                w >> 12 == 10 && (w >> 9) & 7 == d && sext9(w) == k
            }) by (bit_vector)
                requires
                    d < 8,
                    k == sext9(k),
            ;
        },
        Operation::OpLdr { dr, base_r, offset } => {
            let d = dr.0;
            let b = base_r.0;
            let k = offset;
            assert({
                let w = 0x6000u16 | (d << 9) | (b << 6) | (k & 0x3F);
                w >> 12 == 6 && (w >> 9) & 7 == d && (w >> 6) & 7 == b && sext6(w) == k
            }) by (bit_vector)
                requires
                    d < 8,
                    b < 8,
                    k == sext6(k),
            ;
        },
        Operation::OpLea { dr, pc_offset } => {
            let d = dr.0;
            let k = pc_offset;
            assert({
                let w = 0xE000u16 | (d << 9) | (k & 0x1FF);
                w >> 12 == 14 && (w >> 9) & 7 == d && sext9(w) == k
            }) by (bit_vector)
                requires
                    d < 8,
                    k == sext9(k),
            ;
        },
        Operation::OpNot { dr, sr } => {
            let d = dr.0;
            let s = sr.0;
            assert({
                let w = 0x9000u16 | (d << 9) | (s << 6) | 0x3F;
                w >> 12 == 9 && (w >> 9) & 7 == d && (w >> 6) & 7 == s
            }) by (bit_vector)
                requires
                    d < 8,
                    s < 8,
            ;
        },
        Operation::OpRti => {
            assert(0x8000u16 >> 12 == 8) by (bit_vector);
        },
        Operation::OpSt { sr, pc_offset } => {
            let s = sr.0;
            let k = pc_offset;
            assert({
                let w = 0x3000u16 | (s << 9) | (k & 0x1FF);
                w >> 12 == 3 && (w >> 9) & 7 == s && sext9(w) == k
            }) by (bit_vector)
                requires
                    s < 8,
                    k == sext9(k),
            ;
        },
        Operation::OpSti { sr, pc_offset } => {
            let s = sr.0;
            let k = pc_offset;
            assert({
                let w = 0xB000u16 | (s << 9) | (k & 0x1FF);
                w >> 12 == 11 && (w >> 9) & 7 == s && sext9(w) == k
            }) by (bit_vector)
                requires
                    s < 8,
                    k == sext9(k),
            ;
        },
        Operation::OpStr { sr, base_r, offset } => {
            let s = sr.0;
            let b = base_r.0;
            let k = offset;
            assert({
                let w = 0x7000u16 | (s << 9) | (b << 6) | (k & 0x3F);
                w >> 12 == 7 && (w >> 9) & 7 == s && (w >> 6) & 7 == b && sext6(w) == k
            }) by (bit_vector)
                requires
                    s < 8,
                    b < 8,
                    k == sext6(k),
            ;
        },
        Operation::OpTrap { trap_vector } => {
            let v = trap_vector;
            assert({
                let w = 0xF000u16 | (v & 0xFF);
                w >> 12 == 15 && w & 0xFF == v
            }) by (bit_vector)
                requires
                    v < 0x100,
            ;
        },
    }
}

} // verus!

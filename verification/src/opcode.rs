//! The decoder: classifies a 16-bit instruction, given as its two bytes,
//! into one of the 35 instruction kinds. Pure and total over the input
//! domain; unrecognized combinations inside the 0x8*, 0xE* and 0xF*
//! families decode to `None`.

use vstd::prelude::*;

verus! {

/// The 35 instruction kinds of the CHIP-8 instruction set. Operands stay
/// in the raw instruction bytes, which travel alongside the kind.
#[allow(non_camel_case_types)]
#[derive(Clone, Copy, Debug, PartialEq, Eq)]
pub enum Opcode {
    CLS,
    RET,
    SYS,
    JP_A,
    CALL,
    SE_VB,
    SNE_VB,
    SE_VV,
    LD_VB,
    ADD_VB,
    LD_VV,
    OR,
    AND,
    XOR,
    ADD_VV,
    SUB,
    SHR,
    SUBN,
    SHL,
    SNE_VV,
    LD_IA,
    JP_VA,
    RND,
    DRW,
    SKP,
    SKNP,
    LD_VDT,
    LD_VK,
    LD_DTV,
    LD_STV,
    ADD_IV,
    LD_FV,
    LD_BV,
    LD_IV,
    LD_VI,
}

/// Which kind a two-byte instruction encodes: primary dispatch on the high
/// nibble of byte 0, secondary dispatch on byte 1 (or its low nibble) for
/// the families 0x0*, 0x8*, 0xE*, 0xF*.
pub open spec fn decode_spec(b0: u8, b1: u8) -> Option<Opcode> {
    let hi = b0 / 16;
    let lo = b1 % 16;
    if hi == 0x0 {
        if b1 == 0xe0 {
            Some(Opcode::CLS)
        } else if b1 == 0xee {
            Some(Opcode::RET)
        } else {
            Some(Opcode::SYS)
        }
    } else if hi == 0x1 {
        Some(Opcode::JP_A)
    } else if hi == 0x2 {
        Some(Opcode::CALL)
    } else if hi == 0x3 {
        Some(Opcode::SE_VB)
    } else if hi == 0x4 {
        Some(Opcode::SNE_VB)
    } else if hi == 0x5 {
        Some(Opcode::SE_VV)
    } else if hi == 0x6 {
        Some(Opcode::LD_VB)
    } else if hi == 0x7 {
        Some(Opcode::ADD_VB)
    } else if hi == 0x8 {
        if lo == 0x0 {
            Some(Opcode::LD_VV)
        } else if lo == 0x1 {
            Some(Opcode::OR)
        } else if lo == 0x2 {
            Some(Opcode::AND)
        } else if lo == 0x3 {
            Some(Opcode::XOR)
        } else if lo == 0x4 {
            Some(Opcode::ADD_VV)
        } else if lo == 0x5 {
            Some(Opcode::SUB)
        } else if lo == 0x6 {
            Some(Opcode::SHR)
        } else if lo == 0x7 {
            Some(Opcode::SUBN)
        } else if lo == 0xe {
            Some(Opcode::SHL)
        } else {
            None
        }
    } else if hi == 0x9 {
        Some(Opcode::SNE_VV)
    } else if hi == 0xa {
        Some(Opcode::LD_IA)
    } else if hi == 0xb {
        Some(Opcode::JP_VA)
    } else if hi == 0xc {
        Some(Opcode::RND)
    } else if hi == 0xd {
        Some(Opcode::DRW)
    } else if hi == 0xe {
        if b1 == 0x9e {
            Some(Opcode::SKP)
        } else if b1 == 0xa1 {
            Some(Opcode::SKNP)
        } else {
            None
        }
    } else {
        if b1 == 0x07 {
            Some(Opcode::LD_VDT)
        } else if b1 == 0x0a {
            Some(Opcode::LD_VK)
        } else if b1 == 0x15 {
            Some(Opcode::LD_DTV)
        } else if b1 == 0x18 {
            Some(Opcode::LD_STV)
        } else if b1 == 0x1e {
            Some(Opcode::ADD_IV)
        } else if b1 == 0x29 {
            Some(Opcode::LD_FV)
        } else if b1 == 0x33 {
            Some(Opcode::LD_BV)
        } else if b1 == 0x55 {
            Some(Opcode::LD_IV)
        } else if b1 == 0x65 {
            Some(Opcode::LD_VI)
        } else {
            None
        }
    }
}

/// Decode a two-byte instruction into its kind, paired with the raw bytes
/// for the execute step to draw operands from. `None` exactly on the
/// unrecognized combinations of the 0x8*, 0xE* and 0xF* families.
pub fn decode_opcode(opcode: [u8; 2]) -> (r: Option<(Opcode, [u8; 2])>)
    ensures
        match decode_spec(opcode[0], opcode[1]) {
            Some(k) => r == Some((k, opcode)),
            None => r is None,
        },
{
    let b0 = opcode[0];
    let b1 = opcode[1];
    let hi = b0 / 16;
    let lo = b1 % 16;
    if hi == 0x0 {
        if b1 == 0xe0 {
            Some((Opcode::CLS, opcode))
        } else if b1 == 0xee {
            Some((Opcode::RET, opcode))
        } else {
            Some((Opcode::SYS, opcode))
        }
    } else if hi == 0x1 {
        Some((Opcode::JP_A, opcode))
    } else if hi == 0x2 {
        Some((Opcode::CALL, opcode))
    } else if hi == 0x3 {
        Some((Opcode::SE_VB, opcode))
    } else if hi == 0x4 {
        Some((Opcode::SNE_VB, opcode))
    } else if hi == 0x5 {
        Some((Opcode::SE_VV, opcode))
    } else if hi == 0x6 {
        Some((Opcode::LD_VB, opcode))
    } else if hi == 0x7 {
        Some((Opcode::ADD_VB, opcode))
    } else if hi == 0x8 {
        if lo == 0x0 {
            Some((Opcode::LD_VV, opcode))
        } else if lo == 0x1 {
            Some((Opcode::OR, opcode))
        } else if lo == 0x2 {
            Some((Opcode::AND, opcode))
        } else if lo == 0x3 {
            Some((Opcode::XOR, opcode))
        } else if lo == 0x4 {
            Some((Opcode::ADD_VV, opcode))
        } else if lo == 0x5 {
            Some((Opcode::SUB, opcode))
        } else if lo == 0x6 {
            Some((Opcode::SHR, opcode))
        } else if lo == 0x7 {
            Some((Opcode::SUBN, opcode))
        } else if lo == 0xe {
            Some((Opcode::SHL, opcode))
        } else {
            None
        }
    } else if hi == 0x9 {
        Some((Opcode::SNE_VV, opcode))
    } else if hi == 0xa {
        Some((Opcode::LD_IA, opcode))
    } else if hi == 0xb {
        Some((Opcode::JP_VA, opcode))
    } else if hi == 0xc {
        Some((Opcode::RND, opcode))
    } else if hi == 0xd {
        Some((Opcode::DRW, opcode))
    } else if hi == 0xe {
        if b1 == 0x9e {
            Some((Opcode::SKP, opcode))
        } else if b1 == 0xa1 {
            Some((Opcode::SKNP, opcode))
        } else {
            None
        }
    } else {
        if b1 == 0x07 {
            Some((Opcode::LD_VDT, opcode))
        } else if b1 == 0x0a {
            Some((Opcode::LD_VK, opcode))
        } else if b1 == 0x15 {
            Some((Opcode::LD_DTV, opcode))
        } else if b1 == 0x18 {
            Some((Opcode::LD_STV, opcode))
        } else if b1 == 0x1e {
            Some((Opcode::ADD_IV, opcode))
        } else if b1 == 0x29 {
            Some((Opcode::LD_FV, opcode))
        } else if b1 == 0x33 {
            Some((Opcode::LD_BV, opcode))
        } else if b1 == 0x55 {
            Some((Opcode::LD_IV, opcode))
        } else if b1 == 0x65 {
            Some((Opcode::LD_VI, opcode))
        } else {
            None
        }
    }
}

} // verus!

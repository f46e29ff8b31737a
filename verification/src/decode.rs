//! The instruction decoder: a pure function from a fetched 16-bit word to a
//! tagged operation with its extracted fields.
//!
//! Field layout of a word: `op` in bits 15-12, `x` in bits 11-8, `y` in bits
//! 7-4, `n` in bits 3-0, `nn` in bits 7-0, `nnn` in bits 11-0.

use vstd::prelude::*;

verus! {

/// Bits 15-12 of an instruction word.
pub open spec fn spec_op_nibble(instr: u16) -> u16 {
    instr >> 12
}

/// Bits 11-8: the first register field.
pub open spec fn spec_x_field(instr: u16) -> u16 {
    (instr >> 8) & 0xF
}

/// Bits 7-4: the second register field.
pub open spec fn spec_y_field(instr: u16) -> u16 {
    (instr >> 4) & 0xF
}

/// Bits 3-0: the short immediate.
pub open spec fn spec_n_field(instr: u16) -> u16 {
    instr & 0xF
}

/// Bits 7-0: the byte immediate.
pub open spec fn spec_nn_field(instr: u16) -> u8 {
    (instr & 0xFF) as u8
}

/// Bits 11-0: the address immediate.
pub open spec fn spec_nnn_field(instr: u16) -> u16 {
    instr & 0xFFF
}

/// The extracted fields stay inside their architectural ranges.
pub proof fn lemma_field_bounds(instr: u16)
    by (bit_vector)
    ensures
        spec_op_nibble(instr) < 16,
        spec_x_field(instr) < 16,
        spec_y_field(instr) < 16,
        spec_n_field(instr) < 16,
        spec_nnn_field(instr) < 4096,
{
}

/// One decoded CHIP-8 operation. Register fields are carried as indices into
/// the register file; address and byte immediates keep their fetched width.
#[derive(Clone, Copy, Debug, PartialEq, Eq, Structural)]
pub enum Instruction {
    /// 00E0: clear the display.
    Cls,
    /// 00EE: return from a subroutine.
    Ret,
    /// 1nnn: jump to nnn.
    Jp(u16),
    /// 2nnn: call the subroutine at nnn.
    Call(u16),
    /// 3xnn: skip the next instruction if Vx equals nn.
    SeImm(usize, u8),
    /// 4xnn: skip the next instruction if Vx differs from nn.
    SneImm(usize, u8),
    /// 5xy0: skip the next instruction if Vx equals Vy.
    Se(usize, usize),
    /// 6xnn: load nn into Vx.
    LdImm(usize, u8),
    /// 7xnn: add nn to Vx, wrapping, with no flag change.
    AddImm(usize, u8),
    /// 8xy0: copy Vy into Vx.
    Ld(usize, usize),
    /// 8xy1: bitwise or of Vx and Vy into Vx.
    Or(usize, usize),
    /// 8xy2: bitwise and of Vx and Vy into Vx.
    And(usize, usize),
    /// 8xy3: bitwise xor of Vx and Vy into Vx.
    Xor(usize, usize),
    /// 8xy4: add Vy to Vx, wrapping, carry into VF.
    Add(usize, usize),
    /// 8xy5: subtract Vy from Vx, wrapping, no-borrow into VF.
    Sub(usize, usize),
    /// 8xy6: shift Vx right by one, old bit 0 into VF.
    Shr(usize),
    /// 8xy7: set Vx to Vy minus Vx, wrapping, no-borrow into VF.
    Subn(usize, usize),
    /// 8xyE: shift Vx left by one, old bit 7 into VF.
    Shl(usize),
    /// 9xy0: skip the next instruction if Vx differs from Vy.
    Sne(usize, usize),
    /// Annn: load nnn into the index register.
    LdI(u16),
    /// Bnnn: jump to nnn plus V0.
    JpOffset(u16),
    /// Cxnn: load a random byte masked by nn into Vx.
    Rand(usize, u8),
    /// Dxyn: draw the n-row sprite at address I at (Vx, Vy), collision into VF.
    Drw(usize, usize, u8),
    /// Ex9E: skip the next instruction if the key named by Vx is pressed.
    Skp(usize),
    /// ExA1: skip the next instruction if the key named by Vx is not pressed.
    Sknp(usize),
    /// Fx1E: add Vx to the index register, wrapping.
    AddI(usize),
    /// Fx29: point the index register at the font glyph for Vx.
    LdF(usize),
    /// Fx33: write the decimal digits of Vx to memory at I, I+1, I+2.
    LdBcd(usize),
    /// Fx55: store V0 through Vx to memory starting at I.
    LdIntoI(usize),
    /// Fx65: load V0 through Vx from memory starting at I.
    LdFromI(usize),
    /// Any word matching no documented pattern; carries the word itself.
    Unknown(u16),
}

/// The operation a 16-bit word decodes to.
pub open spec fn spec_decode(instr: u16) -> Instruction {
    let op = spec_op_nibble(instr);
    let x = spec_x_field(instr) as usize;
    let y = spec_y_field(instr) as usize;
    let n = spec_n_field(instr);
    let nn = spec_nn_field(instr);
    let nnn = spec_nnn_field(instr);
    if instr == 0x00E0 {
        Instruction::Cls
    } else if instr == 0x00EE {
        Instruction::Ret
    } else if op == 0x1 {
        Instruction::Jp(nnn)
    } else if op == 0x2 {
        Instruction::Call(nnn)
    } else if op == 0x3 {
        Instruction::SeImm(x, nn)
    } else if op == 0x4 {
        Instruction::SneImm(x, nn)
    } else if op == 0x5 && n == 0x0 {
        Instruction::Se(x, y)
    } else if op == 0x6 {
        Instruction::LdImm(x, nn)
    } else if op == 0x7 {
        Instruction::AddImm(x, nn)
    } else if op == 0x8 && n == 0x0 {
        Instruction::Ld(x, y)
    } else if op == 0x8 && n == 0x1 {
        Instruction::Or(x, y)
    } else if op == 0x8 && n == 0x2 {
        Instruction::And(x, y)
    } else if op == 0x8 && n == 0x3 {
        Instruction::Xor(x, y)
    } else if op == 0x8 && n == 0x4 {
        Instruction::Add(x, y)
    } else if op == 0x8 && n == 0x5 {
        Instruction::Sub(x, y)
    } else if op == 0x8 && n == 0x6 {
        Instruction::Shr(x)
    } else if op == 0x8 && n == 0x7 {
        Instruction::Subn(x, y)
    } else if op == 0x8 && n == 0xE {
        Instruction::Shl(x)
    } else if op == 0x9 && n == 0x0 {
        Instruction::Sne(x, y)
    } else if op == 0xA {
        Instruction::LdI(nnn)
    } else if op == 0xB {
        Instruction::JpOffset(nnn)
    } else if op == 0xC {
        Instruction::Rand(x, nn)
    } else if op == 0xD {
        Instruction::Drw(x, y, n as u8)
    } else if op == 0xE && nn == 0x9E {
        Instruction::Skp(x)
    } else if op == 0xE && nn == 0xA1 {
        Instruction::Sknp(x)
    } else if op == 0xF && nn == 0x1E {
        Instruction::AddI(x)
    } else if op == 0xF && nn == 0x29 {
        Instruction::LdF(x)
    } else if op == 0xF && nn == 0x33 {
        Instruction::LdBcd(x)
    } else if op == 0xF && nn == 0x55 {
        Instruction::LdIntoI(x)
    } else if op == 0xF && nn == 0x65 {
        Instruction::LdFromI(x)
    } else {
        Instruction::Unknown(instr)
    }
}

/// Splits a fetched word into its operation and fields. Pure: no state, no
/// side effects.
pub fn decode(instr: u16) -> (r: Instruction)
    ensures
        r == spec_decode(instr),
{
    let op: u16 = instr >> 12;
    let x: usize = ((instr >> 8) & 0xF) as usize;
    let y: usize = ((instr >> 4) & 0xF) as usize;
    let n: u16 = instr & 0xF;
    let nn: u8 = (instr & 0xFF) as u8;
    let nnn: u16 = instr & 0xFFF;
    if instr == 0x00E0 {
        Instruction::Cls
    } else if instr == 0x00EE {
        Instruction::Ret
    } else if op == 0x1 {
        Instruction::Jp(nnn)
    } else if op == 0x2 {
        Instruction::Call(nnn)
    } else if op == 0x3 {
        Instruction::SeImm(x, nn)
    } else if op == 0x4 {
        Instruction::SneImm(x, nn)
    } else if op == 0x5 && n == 0x0 {
        Instruction::Se(x, y)
    } else if op == 0x6 {
        Instruction::LdImm(x, nn)
    } else if op == 0x7 {
        Instruction::AddImm(x, nn)
    } else if op == 0x8 && n == 0x0 {
        Instruction::Ld(x, y)
    } else if op == 0x8 && n == 0x1 {
        Instruction::Or(x, y)
    } else if op == 0x8 && n == 0x2 {
        Instruction::And(x, y)
    } else if op == 0x8 && n == 0x3 {
        Instruction::Xor(x, y)
    } else if op == 0x8 && n == 0x4 {
        Instruction::Add(x, y)
    } else if op == 0x8 && n == 0x5 {
        Instruction::Sub(x, y)
    } else if op == 0x8 && n == 0x6 {
        Instruction::Shr(x)
    } else if op == 0x8 && n == 0x7 {
        Instruction::Subn(x, y)
    } else if op == 0x8 && n == 0xE {
        Instruction::Shl(x)
    } else if op == 0x9 && n == 0x0 {
        Instruction::Sne(x, y)
    } else if op == 0xA {
        Instruction::LdI(nnn)
    } else if op == 0xB {
        Instruction::JpOffset(nnn)
    } else if op == 0xC {
        Instruction::Rand(x, nn)
    } else if op == 0xD {
        Instruction::Drw(x, y, n as u8)
    } else if op == 0xE && nn == 0x9E {
        Instruction::Skp(x)
    } else if op == 0xE && nn == 0xA1 {
        Instruction::Sknp(x)
    } else if op == 0xF && nn == 0x1E {
        Instruction::AddI(x)
    } else if op == 0xF && nn == 0x29 {
        Instruction::LdF(x)
    } else if op == 0xF && nn == 0x33 {
        Instruction::LdBcd(x)
    } else if op == 0xF && nn == 0x55 {
        Instruction::LdIntoI(x)
    } else if op == 0xF && nn == 0x65 {
        Instruction::LdFromI(x)
    } else {
        Instruction::Unknown(instr)
    }
}

} // verus!

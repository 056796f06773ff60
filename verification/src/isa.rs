//! The instruction set: decoding a 16-bit opcode word into its operand
//! fields and into one instruction of the machine's table.

use vstd::prelude::*;

verus! {

/// One decoded instruction. Register operands are nibbles (always below 16),
/// addresses are 12-bit values, immediates are bytes.
#[derive(PartialEq, Eq, Structural, Clone, Copy, Debug)]
pub enum Instr {
    /// The all-zero word: the halt sentinel, not an executable instruction.
    Halt,
    /// 00E0: clear the framebuffer.
    Cls,
    /// 00EE: return from a subroutine.
    Ret,
    /// 1nnn: jump to the address.
    Jmp(u16),
    /// 2nnn: call the subroutine at the address.
    Call(u16),
    /// 3xkk: skip the next instruction if Vx equals the byte.
    SkipEqImm(u8, u8),
    /// 4xkk: skip the next instruction if Vx differs from the byte.
    SkipNeImm(u8, u8),
    /// 5xy*: skip the next instruction if Vx equals Vy.
    SkipEqReg(u8, u8),
    /// 6xkk: load the byte into Vx.
    LoadImm(u8, u8),
    /// 7xkk: add the byte to Vx, wrapping, without touching VF.
    AddImm(u8, u8),
    /// 8xy0: copy Vy into Vx.
    LoadReg(u8, u8),
    /// 8xy1: Vx |= Vy.
    OrReg(u8, u8),
    /// 8xy2: Vx &= Vy.
    AndReg(u8, u8),
    /// 8xy3: Vx ^= Vy.
    XorReg(u8, u8),
    /// 8xy4: Vx += Vy wrapping, VF = carry.
    AddReg(u8, u8),
    /// 8xy5: Vx -= Vy wrapping, VF = 1 iff no borrow (Vx >= Vy).
    SubReg(u8, u8),
    /// 8xy6: shift Vx right by one, VF = the bit shifted out.
    ShrReg(u8),
    /// 8xy7: Vx = Vy - Vx wrapping, VF = 1 iff no borrow (Vy >= Vx).
    SubnReg(u8, u8),
    /// 8xyE: shift Vx left by one, VF = the bit shifted out.
    ShlReg(u8),
    /// 9xy0: skip the next instruction if Vx differs from Vy.
    SkipNeReg(u8, u8),
    /// Annn: load the address into I.
    LoadI(u16),
    /// Bnnn: jump to the address plus V0.
    JumpV0(u16),
    /// Cxkk: load (random byte AND the byte) into Vx.
    RandMask(u8, u8),
    /// Dxyn: draw an n-byte sprite from memory at I at (Vx, Vy), VF = collision.
    Draw(u8, u8, u8),
    /// Ex9E: skip the next instruction if the key numbered Vx is pressed.
    SkipKey(u8),
    /// ExA1: skip the next instruction if the key numbered Vx is not pressed.
    SkipNoKey(u8),
    /// Fx07: load the delay timer into Vx.
    ReadDelay(u8),
    /// Fx0A: wait for a key press, then load the key's index into Vx.
    WaitKey(u8),
    /// Fx15: store Vx into the delay timer.
    SetDelay(u8),
    /// Fx18: store Vx into the sound timer.
    SetSound(u8),
    /// Fx1E: add Vx to I, wrapping at 16 bits.
    AddI(u8),
    /// Fx29: point I at the font glyph for the low nibble of Vx.
    FontAddr(u8),
    /// Fx33: store the decimal digits of Vx at I, I+1, I+2.
    StoreBcd(u8),
    /// Fx55: store V0 through Vx into memory starting at I.
    StoreRegs(u8),
    /// Fx65: load V0 through Vx from memory starting at I.
    LoadRegs(u8),
    /// Any word not in the table above.
    Unknown,
}

/// What one call of the single-step operation reports.
#[derive(PartialEq, Eq, Structural, Clone, Copy, Debug)]
pub enum TickOutcome {
    /// An instruction was executed; execution may continue.
    Continue,
    /// The halt sentinel (the all-zero word) was fetched; the machine is done.
    Halt,
    /// Execution cannot go on soundly; the machine state is as the step
    /// relation describes and further stepping is meaningless.
    Fault(Fault),
}

/// The fatal conditions of the reference machine.
#[derive(PartialEq, Eq, Structural, Clone, Copy, Debug)]
pub enum Fault {
    /// A call was issued with the stack already at capacity.
    StackOverflow,
    /// A return was issued with an empty stack.
    StackUnderflow,
    /// The fetched word is not in the instruction table.
    UnknownOpcode,
    /// An instruction addressed memory beyond its 4096 bytes, or named a key
    /// beyond the 16 that exist.
    OutOfBounds,
}

/// The operation class: the top nibble of the word.
pub open spec fn op_class(op: u16) -> u8 {
    ((op >> 12) & 0xF) as u8
}

/// The x operand: bits 8..=11, selecting a register.
pub open spec fn op_x(op: u16) -> u8 {
    ((op >> 8) & 0xF) as u8
}

/// The y operand: bits 4..=7, selecting a register.
pub open spec fn op_y(op: u16) -> u8 {
    ((op >> 4) & 0xF) as u8
}

/// The n operand: the low nibble, a 4-bit immediate.
pub open spec fn op_n(op: u16) -> u8 {
    (op & 0xF) as u8
}

/// The 12-bit address operand: the low 12 bits of the word.
pub open spec fn op_addr(op: u16) -> u16 {
    op & 0x0FFF
}

/// The 8-bit immediate operand: the low byte of the word.
pub open spec fn op_byte(op: u16) -> u8 {
    (op & 0xFF) as u8
}

/// The decoded fields stay within their widths.
pub proof fn lemma_op_fields(op: u16)
    by (bit_vector)
    ensures
        op_class(op) < 16,
        op_x(op) < 16,
        op_y(op) < 16,
        op_n(op) < 16,
        op_addr(op) < 0x1000,
{
}

/// The instruction table: a total function from a word to an instruction.
/// Dispatch follows the (class, x, y, n) fields; the all-zero word is the
/// halt sentinel, and anything not listed is `Unknown`.
pub open spec fn decode(op: u16) -> Instr {
    let c = op_class(op);
    let x = op_x(op);
    let y = op_y(op);
    let n = op_n(op);
    if op == 0 {
        Instr::Halt
    } else if c == 0 && x == 0 && y == 0xE && n == 0 {
        Instr::Cls
    } else if c == 0 && x == 0 && y == 0xE && n == 0xE {
        Instr::Ret
    } else if c == 1 {
        Instr::Jmp(op_addr(op))
    } else if c == 2 {
        Instr::Call(op_addr(op))
    } else if c == 3 {
        Instr::SkipEqImm(x, op_byte(op))
    } else if c == 4 {
        Instr::SkipNeImm(x, op_byte(op))
    } else if c == 5 {
        Instr::SkipEqReg(x, y)
    } else if c == 6 {
        Instr::LoadImm(x, op_byte(op))
    } else if c == 7 {
        Instr::AddImm(x, op_byte(op))
    } else if c == 8 && n == 0 {
        Instr::LoadReg(x, y)
    } else if c == 8 && n == 1 {
        Instr::OrReg(x, y)
    } else if c == 8 && n == 2 {
        Instr::AndReg(x, y)
    } else if c == 8 && n == 3 {
        Instr::XorReg(x, y)
    } else if c == 8 && n == 4 {
        Instr::AddReg(x, y)
    } else if c == 8 && n == 5 {
        Instr::SubReg(x, y)
    } else if c == 8 && n == 6 {
        Instr::ShrReg(x)
    } else if c == 8 && n == 7 {
        Instr::SubnReg(x, y)
    } else if c == 8 && n == 0xE {
        Instr::ShlReg(x)
    } else if c == 9 && n == 0 {
        Instr::SkipNeReg(x, y)
    } else if c == 0xA {
        Instr::LoadI(op_addr(op))
    } else if c == 0xB {
        Instr::JumpV0(op_addr(op))
    } else if c == 0xC {
        Instr::RandMask(x, op_byte(op))
    } else if c == 0xD {
        Instr::Draw(x, y, n)
    } else if c == 0xE && y == 9 && n == 0xE {
        Instr::SkipKey(x)
    } else if c == 0xE && y == 0xA && n == 1 {
        Instr::SkipNoKey(x)
    } else if c == 0xF && y == 0 && n == 7 {
        Instr::ReadDelay(x)
    } else if c == 0xF && y == 0 && n == 0xA {
        Instr::WaitKey(x)
    } else if c == 0xF && y == 1 && n == 5 {
        Instr::SetDelay(x)
    } else if c == 0xF && y == 1 && n == 8 {
        Instr::SetSound(x)
    } else if c == 0xF && y == 1 && n == 0xE {
        Instr::AddI(x)
    } else if c == 0xF && y == 2 && n == 9 {
        Instr::FontAddr(x)
    } else if c == 0xF && y == 3 && n == 3 {
        Instr::StoreBcd(x)
    } else if c == 0xF && y == 5 && n == 5 {
        Instr::StoreRegs(x)
    } else if c == 0xF && y == 6 && n == 5 {
        Instr::LoadRegs(x)
    } else {
        Instr::Unknown
    }
}

/// Decode a word exactly as [`decode`] does.
pub fn decode_instr(op: u16) -> (r: Instr)
    ensures
        r == decode(op),
{
    let c = ((op >> 12) & 0xF) as u8;
    let x = ((op >> 8) & 0xF) as u8;
    let y = ((op >> 4) & 0xF) as u8;
    let n = (op & 0xF) as u8;
    let addr = op & 0x0FFF;
    let byte = (op & 0xFF) as u8;
    if op == 0 {
        Instr::Halt
    } else {
        match (c, x, y, n) {
            (0, 0, 0xE, 0) => Instr::Cls,
            (0, 0, 0xE, 0xE) => Instr::Ret,
            (1, _, _, _) => Instr::Jmp(addr),
            (2, _, _, _) => Instr::Call(addr),
            (3, _, _, _) => Instr::SkipEqImm(x, byte),
            (4, _, _, _) => Instr::SkipNeImm(x, byte),
            (5, _, _, _) => Instr::SkipEqReg(x, y),
            (6, _, _, _) => Instr::LoadImm(x, byte),
            (7, _, _, _) => Instr::AddImm(x, byte),
            (8, _, _, 0) => Instr::LoadReg(x, y),
            (8, _, _, 1) => Instr::OrReg(x, y),
            (8, _, _, 2) => Instr::AndReg(x, y),
            (8, _, _, 3) => Instr::XorReg(x, y),
            (8, _, _, 4) => Instr::AddReg(x, y),
            (8, _, _, 5) => Instr::SubReg(x, y),
            (8, _, _, 6) => Instr::ShrReg(x),
            (8, _, _, 7) => Instr::SubnReg(x, y),
            (8, _, _, 0xE) => Instr::ShlReg(x),
            (9, _, _, 0) => Instr::SkipNeReg(x, y),
            (0xA, _, _, _) => Instr::LoadI(addr),
            (0xB, _, _, _) => Instr::JumpV0(addr),
            (0xC, _, _, _) => Instr::RandMask(x, byte),
            (0xD, _, _, _) => Instr::Draw(x, y, n),
            (0xE, _, 9, 0xE) => Instr::SkipKey(x),
            (0xE, _, 0xA, 1) => Instr::SkipNoKey(x),
            (0xF, _, 0, 7) => Instr::ReadDelay(x),
            (0xF, _, 0, 0xA) => Instr::WaitKey(x),
            (0xF, _, 1, 5) => Instr::SetDelay(x),
            (0xF, _, 1, 8) => Instr::SetSound(x),
            (0xF, _, 1, 0xE) => Instr::AddI(x),
            (0xF, _, 2, 9) => Instr::FontAddr(x),
            (0xF, _, 3, 3) => Instr::StoreBcd(x),
            (0xF, _, 5, 5) => Instr::StoreRegs(x),
            (0xF, _, 6, 5) => Instr::LoadRegs(x),
            _ => Instr::Unknown,
        }
    }
}

} // verus!

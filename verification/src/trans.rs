//! The state-transition semantics: one spec function per instruction, and
//! the step relation that ties a fetched word to the machine state after one
//! single-step call.

use vstd::prelude::*;

use crate::draw::draw_collides;
use crate::draw::draw_result;
use crate::isa::Fault;
use crate::isa::Instr;
use crate::isa::TickOutcome;
use crate::isa::decode;
use crate::state::MachineView;

verus! {

/// Whether a full instruction word can be fetched at the program counter.
pub open spec fn can_fetch(m: MachineView) -> bool {
    m.pc + 1 < 4096
}

/// The big-endian 16-bit word at the program counter.
pub open spec fn fetch_word(m: MachineView) -> u16 {
    ((m.mem[m.pc as int] as u16) << 8) | (m.mem[m.pc as int + 1] as u16)
}

/// The instruction encoded at the program counter.
pub open spec fn decode_at(m: MachineView) -> Instr {
    decode(fetch_word(m))
}

/// The machine after the unconditional pre-advance of the program counter.
pub open spec fn advanced(m: MachineView) -> MachineView {
    MachineView { pc: (m.pc + 2) as u16, ..m }
}

/// The machine with register x set to v.
pub open spec fn set_reg(m: MachineView, x: u8, v: u8) -> MachineView {
    MachineView { regs: m.regs.update(x as int, v), ..m }
}

/// The machine with register x set to v and the flag register VF set to
/// flag, in that order (so an instruction whose destination is VF leaves the
/// flag there).
pub open spec fn set_reg_flag(m: MachineView, x: u8, v: u8, flag: u8) -> MachineView {
    MachineView { regs: m.regs.update(x as int, v).update(15, flag), ..m }
}

/// The machine after a conditional skip: the program counter moves one more
/// instruction ahead when the condition holds.
pub open spec fn skip_if(m: MachineView, cond: bool) -> MachineView {
    if cond {
        MachineView { pc: (m.pc + 2) as u16, ..m }
    } else {
        m
    }
}

/// 00E0: every framebuffer cell off.
pub open spec fn cls_tr(m: MachineView) -> MachineView {
    MachineView { display: Seq::new(m.display.len(), |idx: int| false), ..m }
}

/// 00EE: pop the top return address into the program counter.
pub open spec fn ret_tr(m: MachineView) -> MachineView
    recommends
        m.stack.len() > 0,
{
    MachineView { pc: m.stack.last(), stack: m.stack.drop_last(), ..m }
}

/// 2nnn: push the (already advanced) program counter, then jump.
pub open spec fn call_tr(m: MachineView, addr: u16) -> MachineView {
    MachineView { stack: m.stack.push(m.pc), pc: addr, ..m }
}

/// 8xy4: wrapping sum, VF = 1 iff the 8-bit addition overflowed.
pub open spec fn add_reg_tr(m: MachineView, x: u8, y: u8) -> MachineView {
    let sum = m.regs[x as int] + m.regs[y as int];
    set_reg_flag(m, x, (sum % 256) as u8, if sum >= 256 { 1 as u8 } else { 0 as u8 })
}

/// 8xy5: wrapping difference Vx - Vy, VF = 1 iff no borrow (Vx >= Vy).
pub open spec fn sub_reg_tr(m: MachineView, x: u8, y: u8) -> MachineView {
    let diff = m.regs[x as int] - m.regs[y as int];
    set_reg_flag(
        m,
        x,
        ((diff + 256) % 256) as u8,
        if m.regs[x as int] >= m.regs[y as int] {
            1 as u8
        } else {
            0 as u8
        },
    )
}

/// 8xy7: wrapping difference Vy - Vx, VF = 1 iff no borrow (Vy >= Vx).
pub open spec fn subn_reg_tr(m: MachineView, x: u8, y: u8) -> MachineView {
    let diff = m.regs[y as int] - m.regs[x as int];
    set_reg_flag(
        m,
        x,
        ((diff + 256) % 256) as u8,
        if m.regs[y as int] >= m.regs[x as int] {
            1 as u8
        } else {
            0 as u8
        },
    )
}

/// 8xy6: halve Vx, VF = the least significant bit that was shifted out.
pub open spec fn shr_tr(m: MachineView, x: u8) -> MachineView {
    set_reg_flag(m, x, (m.regs[x as int] / 2) as u8, (m.regs[x as int] % 2) as u8)
}

/// 8xyE: double Vx modulo 256, VF = the most significant bit that was
/// shifted out.
pub open spec fn shl_tr(m: MachineView, x: u8) -> MachineView {
    set_reg_flag(m, x, ((m.regs[x as int] * 2) % 256) as u8, (m.regs[x as int] / 128) as u8)
}

/// Bnnn: jump to the address plus V0.
pub open spec fn jump_v0_tr(m: MachineView, addr: u16) -> MachineView {
    MachineView { pc: (addr + m.regs[0]) as u16, ..m }
}

/// Cxkk: the drawn byte masked by the immediate, for whichever byte `rb`
/// came out of the generator.
pub open spec fn rand_tr(m: MachineView, x: u8, byte: u8, rb: u8) -> MachineView {
    set_reg(m, x, rb & byte)
}

/// Dxyn: XOR the sprite into the framebuffer with wraparound and set VF to
/// the collision flag. The anchor is (Vx mod 64, Vy mod 32).
pub open spec fn draw_tr(m: MachineView, x: u8, y: u8, n: u8) -> MachineView {
    let x0 = m.regs[x as int] as int % 64;
    let y0 = m.regs[y as int] as int % 32;
    MachineView {
        display: draw_result(m.display, m.mem, m.i as int, x0, y0, n as int),
        regs: m.regs.update(
            15,
            if draw_collides(m.display, m.mem, m.i as int, x0, y0, n as int) {
                1 as u8
            } else {
                0 as u8
            },
        ),
        ..m
    }
}

/// The lowest pressed key's index, or 16 when none from `k` upward is
/// pressed.
pub open spec fn first_key_from(keys: Seq<bool>, k: int) -> int
    decreases 16 - k,
{
    if k < 0 || k >= 16 {
        16
    } else if keys[k] {
        k
    } else {
        first_key_from(keys, k + 1)
    }
}

/// The lowest pressed key's index, or 16 when no key is pressed.
pub open spec fn first_key(keys: Seq<bool>) -> int {
    first_key_from(keys, 0)
}

/// Fx0A: with a key pressed, record the lowest pressed index; with none,
/// undo the pre-advance so the same instruction is fetched again.
pub open spec fn wait_key_tr(m: MachineView, x: u8) -> MachineView {
    if first_key(m.keys) < 16 {
        set_reg(m, x, first_key(m.keys) as u8)
    } else {
        MachineView { pc: (m.pc - 2) as u16, ..m }
    }
}

/// Fx1E: I plus Vx, wrapping at 16 bits.
pub open spec fn add_i_tr(m: MachineView, x: u8) -> MachineView {
    MachineView { i: ((m.i + m.regs[x as int]) % 0x10000) as u16, ..m }
}

/// Fx29: I points at the 5-byte font glyph of the low nibble of Vx.
pub open spec fn font_tr(m: MachineView, x: u8) -> MachineView {
    MachineView { i: ((m.regs[x as int] % 16) * 5) as u16, ..m }
}

/// Fx33: the hundreds, tens and ones digits of Vx at I, I+1, I+2.
pub open spec fn bcd_tr(m: MachineView, x: u8) -> MachineView
    recommends
        m.i + 2 < 4096,
{
    let v = m.regs[x as int];
    MachineView {
        mem: m.mem.update(m.i as int, (v / 100) as u8).update(
            m.i as int + 1,
            ((v / 10) % 10) as u8,
        ).update(m.i as int + 2, (v % 10) as u8),
        ..m
    }
}

/// Fx55: registers V0..=Vx copied into memory at I onward.
pub open spec fn store_regs_tr(m: MachineView, x: u8) -> MachineView
    recommends
        m.i + x < 4096,
{
    MachineView {
        mem: Seq::new(
            m.mem.len(),
            |j: int|
                if m.i <= j <= m.i + x {
                    m.regs[j - m.i]
                } else {
                    m.mem[j]
                },
        ),
        ..m
    }
}

/// Fx65: registers V0..=Vx loaded from memory at I onward.
pub open spec fn load_regs_tr(m: MachineView, x: u8) -> MachineView
    recommends
        m.i + x < 4096,
{
    MachineView {
        regs: Seq::new(
            m.regs.len(),
            |k: int|
                if k <= x {
                    m.mem[m.i + k]
                } else {
                    m.regs[k]
                },
        ),
        ..m
    }
}

/// One decrement of a countdown timer: minus one when nonzero, unchanged at
/// zero.
pub open spec fn timer_dec(t: u8) -> u8 {
    if t > 0 {
        (t - 1) as u8
    } else {
        0
    }
}

/// The timer tick: both countdown registers decremented once.
pub open spec fn tick_timers_tr(m: MachineView) -> MachineView {
    MachineView { delay: timer_dec(m.delay), sound: timer_dec(m.sound), ..m }
}

/// The step relation: what one single-step call does, for every machine
/// state and every fetched word. `pre` is the state before the call, `post`
/// after it, `r` what the call reports. Apart from the masked random byte of
/// Cxkk, the relation determines `post` and `r` from `pre`.
pub open spec fn step_rel(pre: MachineView, post: MachineView, r: TickOutcome) -> bool {
    if !can_fetch(pre) {
        post == pre && r == TickOutcome::Fault(Fault::OutOfBounds)
    } else {
        let m = advanced(pre);
        match decode(fetch_word(pre)) {
            Instr::Halt => post == m && r == TickOutcome::Halt,
            Instr::Cls => post == cls_tr(m) && r == TickOutcome::Continue,
            Instr::Ret => if m.stack.len() == 0 {
                post == m && r == TickOutcome::Fault(Fault::StackUnderflow)
            } else {
                post == ret_tr(m) && r == TickOutcome::Continue
            },
            Instr::Jmp(addr) => post == (MachineView { pc: addr, ..m }) && r
                == TickOutcome::Continue,
            Instr::Call(addr) => if m.stack.len() >= 16 {
                post == m && r == TickOutcome::Fault(Fault::StackOverflow)
            } else {
                post == call_tr(m, addr) && r == TickOutcome::Continue
            },
            Instr::SkipEqImm(x, byte) => post == skip_if(m, m.regs[x as int] == byte) && r
                == TickOutcome::Continue,
            Instr::SkipNeImm(x, byte) => post == skip_if(m, m.regs[x as int] != byte) && r
                == TickOutcome::Continue,
            Instr::SkipEqReg(x, y) => post == skip_if(m, m.regs[x as int] == m.regs[y as int])
                && r == TickOutcome::Continue,
            Instr::LoadImm(x, byte) => post == set_reg(m, x, byte) && r == TickOutcome::Continue,
            Instr::AddImm(x, byte) => post == set_reg(
                m,
                x,
                ((m.regs[x as int] + byte) % 256) as u8,
            ) && r == TickOutcome::Continue,
            Instr::LoadReg(x, y) => post == set_reg(m, x, m.regs[y as int]) && r
                == TickOutcome::Continue,
            Instr::OrReg(x, y) => post == set_reg(m, x, m.regs[x as int] | m.regs[y as int]) && r
                == TickOutcome::Continue,
            Instr::AndReg(x, y) => post == set_reg(m, x, m.regs[x as int] & m.regs[y as int]) && r
                == TickOutcome::Continue,
            Instr::XorReg(x, y) => post == set_reg(m, x, m.regs[x as int] ^ m.regs[y as int]) && r
                == TickOutcome::Continue,
            Instr::AddReg(x, y) => post == add_reg_tr(m, x, y) && r == TickOutcome::Continue,
            Instr::SubReg(x, y) => post == sub_reg_tr(m, x, y) && r == TickOutcome::Continue,
            Instr::ShrReg(x) => post == shr_tr(m, x) && r == TickOutcome::Continue,
            Instr::SubnReg(x, y) => post == subn_reg_tr(m, x, y) && r == TickOutcome::Continue,
            Instr::ShlReg(x) => post == shl_tr(m, x) && r == TickOutcome::Continue,
            Instr::SkipNeReg(x, y) => post == skip_if(m, m.regs[x as int] != m.regs[y as int])
                && r == TickOutcome::Continue,
            Instr::LoadI(addr) => post == (MachineView { i: addr, ..m }) && r
                == TickOutcome::Continue,
            Instr::JumpV0(addr) => post == jump_v0_tr(m, addr) && r == TickOutcome::Continue,
            Instr::RandMask(x, byte) => (exists|rb: u8| post == rand_tr(m, x, byte, rb)) && r
                == TickOutcome::Continue,
            Instr::Draw(x, y, n) => if m.i + n <= 4096 {
                post == draw_tr(m, x, y, n) && r == TickOutcome::Continue
            } else {
                post == m && r == TickOutcome::Fault(Fault::OutOfBounds)
            },
            Instr::SkipKey(x) => if m.regs[x as int] < 16 {
                post == skip_if(m, m.keys[m.regs[x as int] as int]) && r == TickOutcome::Continue
            } else {
                post == m && r == TickOutcome::Fault(Fault::OutOfBounds)
            },
            Instr::SkipNoKey(x) => if m.regs[x as int] < 16 {
                post == skip_if(m, !m.keys[m.regs[x as int] as int]) && r == TickOutcome::Continue
            } else {
                post == m && r == TickOutcome::Fault(Fault::OutOfBounds)
            },
            Instr::ReadDelay(x) => post == set_reg(m, x, m.delay) && r == TickOutcome::Continue,
            Instr::WaitKey(x) => post == wait_key_tr(m, x) && r == TickOutcome::Continue,
            Instr::SetDelay(x) => post == (MachineView { delay: m.regs[x as int], ..m }) && r
                == TickOutcome::Continue,
            Instr::SetSound(x) => post == (MachineView { sound: m.regs[x as int], ..m }) && r
                == TickOutcome::Continue,
            Instr::AddI(x) => post == add_i_tr(m, x) && r == TickOutcome::Continue,
            Instr::FontAddr(x) => post == font_tr(m, x) && r == TickOutcome::Continue,
            Instr::StoreBcd(x) => if m.i + 2 < 4096 {
                post == bcd_tr(m, x) && r == TickOutcome::Continue
            } else {
                post == m && r == TickOutcome::Fault(Fault::OutOfBounds)
            },
            Instr::StoreRegs(x) => if m.i + x < 4096 {
                post == store_regs_tr(m, x) && r == TickOutcome::Continue
            } else {
                post == m && r == TickOutcome::Fault(Fault::OutOfBounds)
            },
            Instr::LoadRegs(x) => if m.i + x < 4096 {
                post == load_regs_tr(m, x) && r == TickOutcome::Continue
            } else {
                post == m && r == TickOutcome::Fault(Fault::OutOfBounds)
            },
            Instr::Unknown => post == m && r == TickOutcome::Fault(Fault::UnknownOpcode),
        }
    }
}

} // verus!

//! The machine itself: the state it owns, the narrow surface the host
//! drives it through, and the instruction handlers, each proved against its
//! transition in [`crate::trans`].

use vstd::prelude::*;

use crate::draw::col_mask;
use crate::draw::draw_collides;
use crate::draw::draw_result;
use crate::draw::lemma_col_step_clear;
use crate::draw::lemma_col_step_set;
use crate::draw::lemma_fresh_target;
use crate::draw::lemma_pix_index_in_range;
use crate::draw::lemma_row_merge;
use crate::draw::pix_index;
use crate::draw::row_collides;
use crate::draw::row_covers;
use crate::draw::sprite_covers;
use crate::isa::Fault;
use crate::isa::Instr;
use crate::isa::TickOutcome;
use crate::isa::decode_instr;
use crate::isa::lemma_op_fields;
use crate::state::MachineView;
use crate::state::NUM_KEYS;
use crate::state::NUM_REGS;
use crate::state::RAM_SIZE;
use crate::state::START_ADDR;
use crate::state::blank_view;
use crate::state::font_table;
use crate::state::init_view;
use crate::state::lit_points_of;
use crate::state::spliced;
use crate::trans::add_i_tr;
use crate::trans::add_reg_tr;
use crate::trans::advanced;
use crate::trans::bcd_tr;
use crate::trans::call_tr;
use crate::trans::cls_tr;
use crate::trans::fetch_word;
use crate::trans::first_key;
use crate::trans::first_key_from;
use crate::trans::font_tr;
use crate::trans::jump_v0_tr;
use crate::trans::load_regs_tr;
use crate::trans::rand_tr;
use crate::trans::ret_tr;
use crate::trans::set_reg;
use crate::trans::shl_tr;
use crate::trans::shr_tr;
use crate::trans::skip_if;
use crate::trans::step_rel;
use crate::trans::store_regs_tr;
use crate::trans::sub_reg_tr;
use crate::trans::subn_reg_tr;
use crate::trans::tick_timers_tr;
use crate::trans::wait_key_tr;

verus! {

/// A CHIP-8 machine: registers, address register I, program counter, memory,
/// call stack, framebuffer, keypad and the two countdown timers. All state
/// lives here; the host drives it through the public methods.
#[derive(Debug)]
pub struct Chip8Emulator {
    v_registers: Vec<u8>,
    i_register: u16,
    program_counter: u16,
    memory: Vec<u8>,
    stack: Vec<u16>,
    display: Vec<bool>,
    keyboard: Vec<bool>,
    delay_timer: u8,
    sound_timer: u8,
}

impl View for Chip8Emulator {
    type V = MachineView;

    closed spec fn view(&self) -> MachineView {
        MachineView {
            regs: self.v_registers@,
            i: self.i_register,
            pc: self.program_counter,
            mem: self.memory@,
            stack: self.stack@,
            display: self.display@,
            keys: self.keyboard@,
            delay: self.delay_timer,
            sound: self.sound_timer,
        }
    }
}

/// A vector of `n` zero bytes.
fn zero_bytes(n: usize) -> (r: Vec<u8>)
    ensures
        r@ == Seq::new(n as nat, |j: int| 0u8),
{
    let r: Vec<u8> = vec![0u8; n];
    proof {
        assert(r@ =~= Seq::new(n as nat, |j: int| 0u8));
    }
    r
}

/// A vector of `n` cleared cells.
fn false_cells(n: usize) -> (r: Vec<bool>)
    ensures
        r@ == Seq::new(n as nat, |j: int| false),
{
    let r: Vec<bool> = vec![false; n];
    proof {
        assert(r@ =~= Seq::new(n as nat, |j: int| false));
    }
    r
}

impl Default for Chip8Emulator {
    /// A blank machine: everything zeroed, the program counter at the entry
    /// offset, no font written yet.
    fn default() -> (r: Self)
        ensures
            r@ == blank_view(),
    {
        let r = Chip8Emulator {
            v_registers: zero_bytes(NUM_REGS),
            i_register: 0,
            program_counter: START_ADDR,
            memory: zero_bytes(RAM_SIZE),
            stack: Vec::new(),
            display: false_cells(64 * 32),
            keyboard: false_cells(NUM_KEYS),
            delay_timer: 0,
            sound_timer: 0,
        };
        proof {
            assert(r@ =~= blank_view());
        }
        r
    }
}

/// The built-in font data, glyph by glyph: 80 bytes.
fn font_bytes() -> (r: Vec<u8>)
    ensures
        r@ == font_table(),
{
    let f: Vec<u8> = vec![
        0xF0, 0x90, 0x90, 0x90, 0xF0,
        0x20, 0x60, 0x20, 0x20, 0x70,
        0xF0, 0x10, 0xF0, 0x80, 0xF0,
        0xF0, 0x10, 0xF0, 0x10, 0xF0,
        0x90, 0x90, 0xF0, 0x10, 0x10,
        0xF0, 0x80, 0xF0, 0x10, 0xF0,
        0xF0, 0x80, 0xF0, 0x90, 0xF0,
        0xF0, 0x10, 0x20, 0x40, 0x40,
        0xF0, 0x90, 0xF0, 0x90, 0xF0,
        0xF0, 0x90, 0xF0, 0x10, 0xF0,
        0xF0, 0x90, 0xF0, 0x90, 0x90,
        0xE0, 0x90, 0xE0, 0x90, 0xE0,
        0xF0, 0x80, 0x80, 0x80, 0xF0,
        0xE0, 0x90, 0x90, 0x90, 0xE0,
        0xF0, 0x80, 0xF0, 0x80, 0xF0,
        0xF0, 0x80, 0xF0, 0x80, 0x80,
    ];
    proof {
        assert(f@ =~= font_table());
    }
    f
}

impl Chip8Emulator {
    /// The architectural size bounds hold; every method preserves this.
    pub open spec fn wf(&self) -> bool {
        self@.wf()
    }

    /// A fresh machine: blank state with the font glyphs written into the
    /// low reserved memory starting at address 0.
    pub fn new() -> (r: Self)
        ensures
            r.wf(),
            r@ == init_view(),
    {
        let mut emu = Self::default();
        let font = font_bytes();
        let mut k: usize = 0;
        while k < 80
            invariant
                k <= 80,
                font@ == font_table(),
                emu@.mem.len() == RAM_SIZE,
                emu@ == (MachineView { mem: emu@.mem, ..blank_view() }),
                forall|j: int| 0 <= j < k ==> emu@.mem[j] == font_table()[j],
                forall|j: int| k <= j < RAM_SIZE ==> emu@.mem[j] == 0u8,
            decreases 80 - k,
        {
            emu.memory[k] = font[k];
            k += 1;
        }
        proof {
            assert(emu@ =~= init_view());
        }
        emu
    }

    /// Copy a program image into memory at the fixed entry offset. The image
    /// must fit between the entry offset and the end of memory.
    pub fn load_data(&mut self, data: &[u8])
        requires
            old(self).wf(),
            data@.len() <= RAM_SIZE - START_ADDR,
        ensures
            final(self).wf(),
            final(self)@ == (MachineView {
                mem: spliced(old(self)@.mem, START_ADDR as int, data@),
                ..old(self)@
            }),
    {
        self.load_data_range(data, START_ADDR as usize);
    }

    /// Copy raw bytes into memory at an explicit offset. The bytes must fit
    /// below the end of memory.
    pub fn load_data_range(&mut self, data: &[u8], start_idx: usize)
        requires
            old(self).wf(),
            start_idx + data@.len() <= RAM_SIZE,
        ensures
            final(self).wf(),
            final(self)@ == (MachineView {
                mem: spliced(old(self)@.mem, start_idx as int, data@),
                ..old(self)@
            }),
    {
        let mut k: usize = 0;
        while k < data.len()
            invariant
                k <= data@.len(),
                start_idx + data@.len() <= RAM_SIZE,
                self@.mem.len() == RAM_SIZE,
                self@ == (MachineView { mem: self@.mem, ..old(self)@ }),
                forall|j: int|
                    start_idx <= j < start_idx + k ==> self@.mem[j] == data@[j - start_idx],
                forall|j: int|
                    0 <= j < RAM_SIZE && !(start_idx <= j < start_idx + k) ==> self@.mem[j]
                        == old(self)@.mem[j],
            decreases data@.len() - k,
        {
            self.memory[start_idx + k] = data[k];
            k += 1;
        }
        proof {
            assert(self@ =~= (MachineView {
                mem: spliced(old(self)@.mem, start_idx as int, data@),
                ..old(self)@
            }));
        }
    }

    /// The framebuffer, row-major: index = x + 64*y, `true` for a lit pixel.
    pub fn get_display(&self) -> (r: &[bool])
        ensures
            r@ == self@.display,
    {
        self.display.as_slice()
    }

    /// Record a key's pressed or released state. The index names one of the
    /// 16 keys.
    pub fn keypress(&mut self, idx: usize, pressed: bool)
        requires
            old(self).wf(),
            idx < NUM_KEYS,
        ensures
            final(self).wf(),
            final(self)@ == (MachineView {
                keys: old(self)@.keys.update(idx as int, pressed),
                ..old(self)@
            }),
    {
        self.keyboard[idx] = pressed;
        proof {
            assert(self@ =~= (MachineView {
                keys: old(self)@.keys.update(idx as int, pressed),
                ..old(self)@
            }));
        }
    }

    /// Advance both countdown timers by one tick: each is decremented when
    /// nonzero and left at zero otherwise. The sound timer passing from 1 to
    /// 0 is the stop-tone edge; no other state moves.
    pub fn tick_timers(&mut self)
        requires
            old(self).wf(),
        ensures
            final(self).wf(),
            final(self)@ == tick_timers_tr(old(self)@),
    {
        if self.delay_timer > 0 {
            self.delay_timer = self.delay_timer - 1;
        }
        if self.sound_timer > 0 {
            self.sound_timer = self.sound_timer - 1;
        }
        proof {
            assert(self@ =~= tick_timers_tr(old(self)@));
        }
    }

    /// The value of a general register.
    pub fn get_register(&self, x: u8) -> (r: u8)
        requires
            self.wf(),
            x < NUM_REGS,
        ensures
            r == self@.regs[x as int],
    {
        self.v_registers[x as usize]
    }

    /// Overwrite a general register.
    pub fn set_register(&mut self, x: u8, val: u8)
        requires
            old(self).wf(),
            x < NUM_REGS,
        ensures
            final(self).wf(),
            final(self)@ == (MachineView {
                regs: old(self)@.regs.update(x as int, val),
                ..old(self)@
            }),
    {
        self.v_registers[x as usize] = val;
        proof {
            assert(self@ =~= (MachineView {
                regs: old(self)@.regs.update(x as int, val),
                ..old(self)@
            }));
        }
    }

    /// The program counter.
    pub fn get_program_counter(&self) -> (r: u16)
        ensures
            r == self@.pc,
    {
        self.program_counter
    }

    /// The delay timer's value.
    pub fn get_delay_timer(&self) -> (r: u8)
        ensures
            r == self@.delay,
    {
        self.delay_timer
    }

    /// The sound timer's value: the tone sounds while it is nonzero.
    pub fn get_sound_timer(&self) -> (r: u8)
        ensures
            r == self@.sound,
    {
        self.sound_timer
    }

    /// The coordinates of every lit pixel, in row-major order: what a
    /// presentation layer plots.
    pub fn lit_points(&self) -> (r: Vec<(u8, u8)>)
        requires
            self.wf(),
        ensures
            r@ == lit_points_of(self@.display, 2048),
    {
        let mut r: Vec<(u8, u8)> = Vec::new();
        let mut k: usize = 0;
        while k < 2048
            invariant
                self.wf(),
                k <= 2048,
                r@ == lit_points_of(self@.display, k as int),
            decreases 2048 - k,
        {
            if self.display[k] {
                r.push(((k % 64) as u8, (k / 64) as u8));
            }
            k += 1;
        }
        r
    }

    /// Fetch the big-endian instruction word at the program counter and
    /// pre-advance the counter by one instruction.
    fn read_opcode(&mut self) -> (op: u16)
        requires
            old(self).wf(),
            old(self)@.pc + 1 < RAM_SIZE,
        ensures
            final(self).wf(),
            op == fetch_word(old(self)@),
            final(self)@ == advanced(old(self)@),
    {
        let b1 = self.memory[self.program_counter as usize] as u16;
        let b2 = self.memory[self.program_counter as usize + 1] as u16;
        self.program_counter = self.program_counter + 2;
        proof {
            assert(self@ =~= advanced(old(self)@));
        }
        (b1 << 8) | b2
    }

    /// 3xkk: skip the next instruction if Vx equals the byte.
    fn skip_val_eq(&mut self, x: u8, byte: u8)
        requires
            old(self).wf(),
            x < 16,
            old(self)@.pc + 2 <= u16::MAX,
        ensures
            final(self).wf(),
            final(self)@ == skip_if(old(self)@, old(self)@.regs[x as int] == byte),
    {
        if self.v_registers[x as usize] == byte {
            self.program_counter = self.program_counter + 2;
        }
        proof {
            assert(self@ =~= skip_if(old(self)@, old(self)@.regs[x as int] == byte));
        }
    }

    /// 4xkk: skip the next instruction if Vx differs from the byte.
    fn skip_val_not_eq(&mut self, x: u8, byte: u8)
        requires
            old(self).wf(),
            x < 16,
            old(self)@.pc + 2 <= u16::MAX,
        ensures
            final(self).wf(),
            final(self)@ == skip_if(old(self)@, old(self)@.regs[x as int] != byte),
    {
        if self.v_registers[x as usize] != byte {
            self.program_counter = self.program_counter + 2;
        }
        proof {
            assert(self@ =~= skip_if(old(self)@, old(self)@.regs[x as int] != byte));
        }
    }

    /// 5xy*: skip the next instruction if Vx equals Vy.
    fn skip_registers_eq(&mut self, x: u8, y: u8)
        requires
            old(self).wf(),
            x < 16,
            y < 16,
            old(self)@.pc + 2 <= u16::MAX,
        ensures
            final(self).wf(),
            final(self)@ == skip_if(
                old(self)@,
                old(self)@.regs[x as int] == old(self)@.regs[y as int],
            ),
    {
        if self.v_registers[x as usize] == self.v_registers[y as usize] {
            self.program_counter = self.program_counter + 2;
        }
        proof {
            assert(self@ =~= skip_if(
                old(self)@,
                old(self)@.regs[x as int] == old(self)@.regs[y as int],
            ));
        }
    }

    /// 9xy0: skip the next instruction if Vx differs from Vy.
    fn skip_registers_ne(&mut self, x: u8, y: u8)
        requires
            old(self).wf(),
            x < 16,
            y < 16,
            old(self)@.pc + 2 <= u16::MAX,
        ensures
            final(self).wf(),
            final(self)@ == skip_if(
                old(self)@,
                old(self)@.regs[x as int] != old(self)@.regs[y as int],
            ),
    {
        if self.v_registers[x as usize] != self.v_registers[y as usize] {
            self.program_counter = self.program_counter + 2;
        }
        proof {
            assert(self@ =~= skip_if(
                old(self)@,
                old(self)@.regs[x as int] != old(self)@.regs[y as int],
            ));
        }
    }

    /// 6xkk: load the byte into Vx.
    fn load_register(&mut self, x: u8, byte: u8)
        requires
            old(self).wf(),
            x < 16,
        ensures
            final(self).wf(),
            final(self)@ == set_reg(old(self)@, x, byte),
    {
        self.v_registers[x as usize] = byte;
        proof {
            assert(self@ =~= set_reg(old(self)@, x, byte));
        }
    }

    /// 7xkk: add the byte to Vx, wrapping, with no flag side effect.
    fn add_to_register(&mut self, x: u8, byte: u8)
        requires
            old(self).wf(),
            x < 16,
        ensures
            final(self).wf(),
            final(self)@ == set_reg(
                old(self)@,
                x,
                ((old(self)@.regs[x as int] + byte) % 256) as u8,
            ),
    {
        let sum: u16 = self.v_registers[x as usize] as u16 + byte as u16;
        self.v_registers[x as usize] = (sum % 256) as u8;
        proof {
            assert(self@ =~= set_reg(
                old(self)@,
                x,
                ((old(self)@.regs[x as int] + byte) % 256) as u8,
            ));
        }
    }

    /// 8xy0: copy Vy into Vx.
    fn load(&mut self, x: u8, y: u8)
        requires
            old(self).wf(),
            x < 16,
            y < 16,
        ensures
            final(self).wf(),
            final(self)@ == set_reg(old(self)@, x, old(self)@.regs[y as int]),
    {
        self.v_registers[x as usize] = self.v_registers[y as usize];
        proof {
            assert(self@ =~= set_reg(old(self)@, x, old(self)@.regs[y as int]));
        }
    }

    /// 8xy1: Vx |= Vy.
    fn or(&mut self, x: u8, y: u8)
        requires
            old(self).wf(),
            x < 16,
            y < 16,
        ensures
            final(self).wf(),
            final(self)@ == set_reg(
                old(self)@,
                x,
                old(self)@.regs[x as int] | old(self)@.regs[y as int],
            ),
    {
        self.v_registers[x as usize] = self.v_registers[x as usize] | self.v_registers[y as usize];
        proof {
            assert(self@ =~= set_reg(
                old(self)@,
                x,
                old(self)@.regs[x as int] | old(self)@.regs[y as int],
            ));
        }
    }

    /// 8xy2: Vx &= Vy.
    fn and(&mut self, x: u8, y: u8)
        requires
            old(self).wf(),
            x < 16,
            y < 16,
        ensures
            final(self).wf(),
            final(self)@ == set_reg(
                old(self)@,
                x,
                old(self)@.regs[x as int] & old(self)@.regs[y as int],
            ),
    {
        self.v_registers[x as usize] = self.v_registers[x as usize] & self.v_registers[y as usize];
        proof {
            assert(self@ =~= set_reg(
                old(self)@,
                x,
                old(self)@.regs[x as int] & old(self)@.regs[y as int],
            ));
        }
    }

    /// 8xy3: Vx ^= Vy.
    fn xor(&mut self, x: u8, y: u8)
        requires
            old(self).wf(),
            x < 16,
            y < 16,
        ensures
            final(self).wf(),
            final(self)@ == set_reg(
                old(self)@,
                x,
                old(self)@.regs[x as int] ^ old(self)@.regs[y as int],
            ),
    {
        self.v_registers[x as usize] = self.v_registers[x as usize] ^ self.v_registers[y as usize];
        proof {
            assert(self@ =~= set_reg(
                old(self)@,
                x,
                old(self)@.regs[x as int] ^ old(self)@.regs[y as int],
            ));
        }
    }

    /// 8xy4: Vx += Vy wrapping; VF = 1 exactly when the 8-bit sum
    /// overflowed. The destination gets `(Vx + Vy) mod 256`.
    fn add_xy(&mut self, x: u8, y: u8)
        requires
            old(self).wf(),
            x < 16,
            y < 16,
        ensures
            final(self).wf(),
            final(self)@ == add_reg_tr(old(self)@, x, y),
    {
        let sum: u16 = self.v_registers[x as usize] as u16 + self.v_registers[y as usize] as u16;
        self.v_registers[x as usize] = (sum % 256) as u8;
        self.v_registers[15] = if sum >= 256 {
            1
        } else {
            0
        };
        proof {
            assert(self@ =~= add_reg_tr(old(self)@, x, y));
        }
    }

    /// 8xy5: Vx -= Vy wrapping; VF = 1 exactly when no borrow occurred
    /// (Vx >= Vy). The destination gets `(Vx - Vy) mod 256`.
    fn sub_xy(&mut self, x: u8, y: u8)
        requires
            old(self).wf(),
            x < 16,
            y < 16,
        ensures
            final(self).wf(),
            final(self)@ == sub_reg_tr(old(self)@, x, y),
    {
        let a = self.v_registers[x as usize];
        let b = self.v_registers[y as usize];
        let diff: u16 = (a as u16 + 256 - b as u16) % 256;
        self.v_registers[x as usize] = diff as u8;
        self.v_registers[15] = if a >= b {
            1
        } else {
            0
        };
        proof {
            assert(self@ =~= sub_reg_tr(old(self)@, x, y));
        }
    }

    /// 8xy7: Vx = Vy - Vx wrapping; VF = 1 exactly when no borrow occurred
    /// (Vy >= Vx).
    fn subn(&mut self, x: u8, y: u8)
        requires
            old(self).wf(),
            x < 16,
            y < 16,
        ensures
            final(self).wf(),
            final(self)@ == subn_reg_tr(old(self)@, x, y),
    {
        let a = self.v_registers[x as usize];
        let b = self.v_registers[y as usize];
        let diff: u16 = (b as u16 + 256 - a as u16) % 256;
        self.v_registers[x as usize] = diff as u8;
        self.v_registers[15] = if b >= a {
            1
        } else {
            0
        };
        proof {
            assert(self@ =~= subn_reg_tr(old(self)@, x, y));
        }
    }

    /// 8xy6: halve Vx; VF = the least significant bit shifted out, whatever
    /// the shifted value is.
    fn shift_right(&mut self, x: u8)
        requires
            old(self).wf(),
            x < 16,
        ensures
            final(self).wf(),
            final(self)@ == shr_tr(old(self)@, x),
    {
        let v = self.v_registers[x as usize];
        self.v_registers[x as usize] = v / 2;
        self.v_registers[15] = v % 2;
        proof {
            assert(self@ =~= shr_tr(old(self)@, x));
        }
    }

    /// 8xyE: double Vx modulo 256; VF = the most significant bit shifted
    /// out, whatever the shifted value is.
    fn shift_left(&mut self, x: u8)
        requires
            old(self).wf(),
            x < 16,
        ensures
            final(self).wf(),
            final(self)@ == shl_tr(old(self)@, x),
    {
        let v = self.v_registers[x as usize];
        self.v_registers[x as usize] = ((v as u16 * 2) % 256) as u8;
        self.v_registers[15] = v / 128;
        proof {
            assert(self@ =~= shl_tr(old(self)@, x));
        }
    }

    /// 00E0: clear the framebuffer.
    fn cls(&mut self)
        requires
            old(self).wf(),
        ensures
            final(self).wf(),
            final(self)@ == cls_tr(old(self)@),
    {
        self.display = false_cells(64 * 32);
        proof {
            assert(self@ =~= cls_tr(old(self)@));
        }
    }

    /// 1nnn: jump to the address.
    fn jmp(&mut self, addr: u16)
        requires
            old(self).wf(),
        ensures
            final(self).wf(),
            final(self)@ == (MachineView { pc: addr, ..old(self)@ }),
    {
        self.program_counter = addr;
        proof {
            assert(self@ =~= (MachineView { pc: addr, ..old(self)@ }));
        }
    }

    /// 2nnn: push the return address and jump to the subroutine. The stack
    /// must not be full; `tick` reports the fault instead of calling this.
    fn call(&mut self, addr: u16)
        requires
            old(self).wf(),
            old(self)@.stack.len() < 16,
        ensures
            final(self).wf(),
            final(self)@ == call_tr(old(self)@, addr),
    {
        self.stack.push(self.program_counter);
        self.program_counter = addr;
        proof {
            assert(self@ =~= call_tr(old(self)@, addr));
        }
    }

    /// 00EE: pop the return address into the program counter. The stack must
    /// not be empty; `tick` reports the fault instead of calling this.
    fn ret(&mut self)
        requires
            old(self).wf(),
            old(self)@.stack.len() > 0,
        ensures
            final(self).wf(),
            final(self)@ == ret_tr(old(self)@),
    {
        let a = self.stack.pop().unwrap();
        self.program_counter = a;
        proof {
            assert(self@ =~= ret_tr(old(self)@));
        }
    }

    /// Annn: load the address into I.
    fn load_i_reg(&mut self, addr: u16)
        requires
            old(self).wf(),
        ensures
            final(self).wf(),
            final(self)@ == (MachineView { i: addr, ..old(self)@ }),
    {
        self.i_register = addr;
        proof {
            assert(self@ =~= (MachineView { i: addr, ..old(self)@ }));
        }
    }

    /// Bnnn: jump to the address plus V0.
    fn jump_from(&mut self, addr: u16)
        requires
            old(self).wf(),
            addr < 0x1000,
        ensures
            final(self).wf(),
            final(self)@ == jump_v0_tr(old(self)@, addr),
    {
        self.program_counter = addr + self.v_registers[0] as u16;
        proof {
            assert(self@ =~= jump_v0_tr(old(self)@, addr));
        }
    }

    /// Cxkk: load (random byte AND the byte) into Vx. Only the masking is
    /// promised; the byte itself may be anything.
    fn rand(&mut self, x: u8, byte: u8)
        requires
            old(self).wf(),
            x < 16,
        ensures
            final(self).wf(),
            exists|rb: u8| final(self)@ == rand_tr(old(self)@, x, byte, rb),
    {
        let r = random_byte();
        self.v_registers[x as usize] = r & byte;
        proof {
            assert(self@ =~= rand_tr(old(self)@, x, byte, r));
        }
    }

    /// Ex9E: skip the next instruction if the key numbered Vx is pressed.
    /// Vx must name one of the 16 keys; `tick` reports the fault otherwise.
    fn skip_if_key(&mut self, x: u8)
        requires
            old(self).wf(),
            x < 16,
            old(self)@.regs[x as int] < 16,
            old(self)@.pc + 2 <= u16::MAX,
        ensures
            final(self).wf(),
            final(self)@ == skip_if(
                old(self)@,
                old(self)@.keys[old(self)@.regs[x as int] as int],
            ),
    {
        let vx = self.v_registers[x as usize];
        if self.keyboard[vx as usize] {
            self.program_counter = self.program_counter + 2;
        }
        proof {
            assert(self@ =~= skip_if(
                old(self)@,
                old(self)@.keys[old(self)@.regs[x as int] as int],
            ));
        }
    }

    /// ExA1: skip the next instruction if the key numbered Vx is not
    /// pressed. Vx must name one of the 16 keys.
    fn skip_not_key(&mut self, x: u8)
        requires
            old(self).wf(),
            x < 16,
            old(self)@.regs[x as int] < 16,
            old(self)@.pc + 2 <= u16::MAX,
        ensures
            final(self).wf(),
            final(self)@ == skip_if(
                old(self)@,
                !old(self)@.keys[old(self)@.regs[x as int] as int],
            ),
    {
        let vx = self.v_registers[x as usize];
        if !self.keyboard[vx as usize] {
            self.program_counter = self.program_counter + 2;
        }
        proof {
            assert(self@ =~= skip_if(
                old(self)@,
                !old(self)@.keys[old(self)@.regs[x as int] as int],
            ));
        }
    }

    /// Fx07: load the delay timer into Vx.
    fn set_register_to_delay(&mut self, x: u8)
        requires
            old(self).wf(),
            x < 16,
        ensures
            final(self).wf(),
            final(self)@ == set_reg(old(self)@, x, old(self)@.delay),
    {
        self.v_registers[x as usize] = self.delay_timer;
        proof {
            assert(self@ =~= set_reg(old(self)@, x, old(self)@.delay));
        }
    }

    /// Fx0A: with some key pressed, record the lowest pressed index in Vx;
    /// with none, step the program counter back onto this instruction so the
    /// next single-step call retries it.
    fn wait_timer(&mut self, x: u8)
        requires
            old(self).wf(),
            x < 16,
            old(self)@.pc >= 2,
        ensures
            final(self).wf(),
            final(self)@ == wait_key_tr(old(self)@, x),
    {
        let mut k: usize = 0;
        while k < 16
            invariant
                old(self).wf(),
                x < 16,
                k <= 16,
                self == old(self),
                first_key(self@.keys) == first_key_from(self@.keys, k as int),
            decreases 16 - k,
        {
            if self.keyboard[k] {
                self.v_registers[x as usize] = k as u8;
                proof {
                    assert(first_key(old(self)@.keys) == k);
                    assert(self@ =~= wait_key_tr(old(self)@, x));
                }
                return ;
            }
            k += 1;
        }
        proof {
            assert(first_key(self@.keys) == 16);
        }
        self.program_counter = self.program_counter - 2;
        proof {
            assert(self@ =~= wait_key_tr(old(self)@, x));
        }
    }

    /// Fx15: store Vx into the delay timer.
    fn set_timer(&mut self, x: u8)
        requires
            old(self).wf(),
            x < 16,
        ensures
            final(self).wf(),
            final(self)@ == (MachineView { delay: old(self)@.regs[x as int], ..old(self)@ }),
    {
        self.delay_timer = self.v_registers[x as usize];
        proof {
            assert(self@ =~= (MachineView {
                delay: old(self)@.regs[x as int],
                ..old(self)@
            }));
        }
    }

    /// Fx18: store Vx into the sound timer.
    fn set_sound_timer(&mut self, x: u8)
        requires
            old(self).wf(),
            x < 16,
        ensures
            final(self).wf(),
            final(self)@ == (MachineView { sound: old(self)@.regs[x as int], ..old(self)@ }),
    {
        self.sound_timer = self.v_registers[x as usize];
        proof {
            assert(self@ =~= (MachineView {
                sound: old(self)@.regs[x as int],
                ..old(self)@
            }));
        }
    }

    /// Fx1E: add Vx to I, wrapping at 16 bits, no flag.
    fn add_to_i_register(&mut self, x: u8)
        requires
            old(self).wf(),
            x < 16,
        ensures
            final(self).wf(),
            final(self)@ == add_i_tr(old(self)@, x),
    {
        let s: u32 = self.i_register as u32 + self.v_registers[x as usize] as u32;
        self.i_register = (s % 0x10000) as u16;
        proof {
            assert(self@ =~= add_i_tr(old(self)@, x));
        }
    }

    /// Fx29: point I at the font glyph of the low nibble of Vx; every glyph
    /// occupies 5 bytes starting at `digit * 5`.
    fn set_i_to_font_addr(&mut self, x: u8)
        requires
            old(self).wf(),
            x < 16,
        ensures
            final(self).wf(),
            final(self)@ == font_tr(old(self)@, x),
    {
        let digit = self.v_registers[x as usize] % 16;
        self.i_register = digit as u16 * 5;
        proof {
            assert(self@ =~= font_tr(old(self)@, x));
        }
    }

    /// Fx33: store the hundreds, tens and ones digits of Vx at I, I+1, I+2.
    /// The three addresses must lie inside memory.
    fn store_bcd_encoding(&mut self, x: u8)
        requires
            old(self).wf(),
            x < 16,
            old(self)@.i + 2 < RAM_SIZE,
        ensures
            final(self).wf(),
            final(self)@ == bcd_tr(old(self)@, x),
    {
        let vx = self.v_registers[x as usize];
        let i_addr = self.i_register as usize;
        self.memory[i_addr] = vx / 100;
        self.memory[i_addr + 1] = (vx / 10) % 10;
        self.memory[i_addr + 2] = vx % 10;
        proof {
            assert(self@ =~= bcd_tr(old(self)@, x));
        }
    }

    /// Fx55: store registers V0 through Vx into memory starting at I, each
    /// register in turn. The range must lie inside memory.
    fn store_registers_at_i(&mut self, x: u8)
        requires
            old(self).wf(),
            x < 16,
            old(self)@.i + x < RAM_SIZE,
        ensures
            final(self).wf(),
            final(self)@ == store_regs_tr(old(self)@, x),
    {
        let i_addr = self.i_register as usize;
        let mut k: usize = 0;
        while k <= x as usize
            invariant
                old(self).wf(),
                x < 16,
                k <= x + 1,
                old(self)@.i + x < RAM_SIZE,
                i_addr == old(self)@.i,
                self@.mem.len() == RAM_SIZE,
                self@ == (MachineView { mem: self@.mem, ..old(self)@ }),
                forall|j: int| i_addr <= j < i_addr + k ==> self@.mem[j] == old(self)@.regs[
                    j - i_addr],
                forall|j: int|
                    0 <= j < RAM_SIZE && !(i_addr <= j < i_addr + k) ==> self@.mem[j] == old(
                        self,
                    )@.mem[j],
            decreases x + 1 - k,
        {
            self.memory[i_addr + k] = self.v_registers[k];
            k += 1;
        }
        proof {
            assert(self@ =~= store_regs_tr(old(self)@, x));
        }
    }

    /// Fx65: load registers V0 through Vx from memory starting at I. The
    /// range must lie inside memory.
    fn load_registers_from_i_addr(&mut self, x: u8)
        requires
            old(self).wf(),
            x < 16,
            old(self)@.i + x < RAM_SIZE,
        ensures
            final(self).wf(),
            final(self)@ == load_regs_tr(old(self)@, x),
    {
        let i_addr = self.i_register as usize;
        let mut k: usize = 0;
        while k <= x as usize
            invariant
                old(self).wf(),
                x < 16,
                k <= x + 1,
                old(self)@.i + x < RAM_SIZE,
                i_addr == old(self)@.i,
                self@.regs.len() == NUM_REGS,
                self@ == (MachineView { regs: self@.regs, ..old(self)@ }),
                forall|j: int| 0 <= j < k ==> self@.regs[j] == old(self)@.mem[i_addr + j],
                forall|j: int| k <= j < NUM_REGS ==> self@.regs[j] == old(self)@.regs[j],
            decreases x + 1 - k,
        {
            self.v_registers[k] = self.memory[i_addr + k];
            k += 1;
        }
        proof {
            assert(self@ =~= load_regs_tr(old(self)@, x));
        }
    }
}

/// Relies on `fastrand::u8` over the full range: it returns a byte and, on
/// the full range, never panics. Nothing is assumed about the value.
#[verifier::external_body]
fn random_byte() -> u8 {
    fastrand::u8(..)
}

/// The mask of sprite column `col`, most significant bit first.
fn col_mask_of(col: usize) -> (r: u8)
    ensures
        r == col_mask(col as int),
{
    match col {
        0 => 0x80,
        1 => 0x40,
        2 => 0x20,
        3 => 0x10,
        4 => 0x08,
        5 => 0x04,
        6 => 0x02,
        7 => 0x01,
        _ => 0,
    }
}

impl Chip8Emulator {
    /// Dxyn: XOR the n-row sprite at memory address I onto the framebuffer
    /// at (Vx mod 64, Vy mod 32), wrapping at the screen edges; VF becomes 1
    /// exactly when some previously lit pixel is turned off. The sprite's
    /// bytes must lie inside memory.
    fn display(&mut self, x: u8, y: u8, n: u8)
        requires
            old(self).wf(),
            x < 16,
            y < 16,
            n < 16,
            old(self)@.i + n <= RAM_SIZE,
        ensures
            final(self).wf(),
            final(self)@ == crate::trans::draw_tr(old(self)@, x, y, n),
    {
        let x0 = (self.v_registers[x as usize] % 64) as usize;
        let y0 = (self.v_registers[y as usize] % 32) as usize;
        let i_addr = self.i_register as usize;
        let ghost pre = old(self)@;
        let mut flipped = false;
        let mut row: usize = 0;
        while row < n as usize
            invariant
                pre == old(self)@,
                pre.wf(),
                x < 16,
                y < 16,
                n < 16,
                pre.i + n <= RAM_SIZE,
                i_addr == pre.i,
                x0 == pre.regs[x as int] as int % 64,
                y0 == pre.regs[y as int] as int % 32,
                x0 < 64,
                y0 < 32,
                row <= n,
                self@.display.len() == 2048,
                self@ == (MachineView { display: self@.display, ..pre }),
                forall|idx: int|
                    0 <= idx < 2048 ==> self@.display[idx] == (pre.display[idx] != sprite_covers(
                        pre.mem,
                        i_addr as int,
                        x0 as int,
                        y0 as int,
                        row as int,
                        idx,
                    )),
                flipped == draw_collides(
                    pre.display,
                    pre.mem,
                    i_addr as int,
                    x0 as int,
                    y0 as int,
                    row as int,
                ),
            decreases n - row,
        {
            let pixels = self.memory[i_addr + row];
            let mut col: usize = 0;
            while col < 8
                invariant
                    pre == old(self)@,
                    pre.wf(),
                    x < 16,
                    y < 16,
                    n < 16,
                    pre.i + n <= RAM_SIZE,
                    i_addr == pre.i,
                    x0 == pre.regs[x as int] as int % 64,
                    y0 == pre.regs[y as int] as int % 32,
                    x0 < 64,
                    y0 < 32,
                    row < n,
                    col <= 8,
                    pixels == pre.mem[i_addr + row],
                    self@.display.len() == 2048,
                    self@ == (MachineView { display: self@.display, ..pre }),
                    forall|idx: int|
                        0 <= idx < 2048 ==> self@.display[idx] == (pre.display[idx] != (
                        sprite_covers(
                            pre.mem,
                            i_addr as int,
                            x0 as int,
                            y0 as int,
                            row as int,
                            idx,
                        ) || row_covers(
                            pre.mem,
                            i_addr as int,
                            x0 as int,
                            y0 as int,
                            row as int,
                            col as int,
                            idx,
                        ))),
                    flipped == (draw_collides(
                        pre.display,
                        pre.mem,
                        i_addr as int,
                        x0 as int,
                        y0 as int,
                        row as int,
                    ) || row_collides(
                        pre.display,
                        pre.mem,
                        i_addr as int,
                        x0 as int,
                        y0 as int,
                        row as int,
                        col as int,
                    )),
                decreases 8 - col,
            {
                let mask = col_mask_of(col);
                if pixels & mask != 0 {
                    let px = if x0 + col >= 64 {
                        x0 + col - 64
                    } else {
                        x0 + col
                    };
                    let py = if y0 + row >= 32 {
                        y0 + row - 32
                    } else {
                        y0 + row
                    };
                    let t_idx = px + 64 * py;
                    proof {
                        assert(t_idx == pix_index(x0 as int, y0 as int, row as int, col as int));
                        lemma_pix_index_in_range(x0 as int, y0 as int, row as int, col as int);
                        lemma_fresh_target(
                            pre.mem,
                            i_addr as int,
                            x0 as int,
                            y0 as int,
                            row as int,
                            col as int,
                        );
                        lemma_col_step_set(
                            pre.display,
                            pre.mem,
                            i_addr as int,
                            x0 as int,
                            y0 as int,
                            row as int,
                            col as int,
                        );
                    }
                    let cur = self.display[t_idx];
                    flipped = flipped || cur;
                    self.display[t_idx] = !cur;
                } else {
                    proof {
                        lemma_col_step_clear(
                            pre.display,
                            pre.mem,
                            i_addr as int,
                            x0 as int,
                            y0 as int,
                            row as int,
                            col as int,
                        );
                    }
                }
                col += 1;
            }
            proof {
                lemma_row_merge(
                    pre.display,
                    pre.mem,
                    i_addr as int,
                    x0 as int,
                    y0 as int,
                    row as int,
                );
            }
            row += 1;
        }
        self.v_registers[15] = if flipped {
            1
        } else {
            0
        };
        proof {
            assert(self@.display =~= draw_result(
                pre.display,
                pre.mem,
                i_addr as int,
                x0 as int,
                y0 as int,
                n as int,
            ));
            assert(self@ =~= crate::trans::draw_tr(old(self)@, x, y, n));
        }
    }

    /// Execute exactly one instruction: fetch the word at the program
    /// counter, pre-advance the counter by 2, and dispatch. Reports whether
    /// execution goes on, reached the halt sentinel, or hit a fatal
    /// condition; the step relation pins the state change for every case.
    pub fn tick(&mut self) -> (r: TickOutcome)
        requires
            old(self).wf(),
        ensures
            final(self).wf(),
            step_rel(old(self)@, final(self)@, r),
    {
        if self.program_counter >= 4095 {
            return TickOutcome::Fault(Fault::OutOfBounds);
        }
        let op = self.read_opcode();
        proof {
            lemma_op_fields(op);
        }
        match decode_instr(op) {
            Instr::Halt => TickOutcome::Halt,
            Instr::Cls => {
                self.cls();
                TickOutcome::Continue
            },
            Instr::Ret => {
                if self.stack.len() == 0 {
                    TickOutcome::Fault(Fault::StackUnderflow)
                } else {
                    self.ret();
                    TickOutcome::Continue
                }
            },
            Instr::Jmp(addr) => {
                self.jmp(addr);
                TickOutcome::Continue
            },
            Instr::Call(addr) => {
                if self.stack.len() >= 16 {
                    TickOutcome::Fault(Fault::StackOverflow)
                } else {
                    self.call(addr);
                    TickOutcome::Continue
                }
            },
            Instr::SkipEqImm(x, byte) => {
                self.skip_val_eq(x, byte);
                TickOutcome::Continue
            },
            Instr::SkipNeImm(x, byte) => {
                self.skip_val_not_eq(x, byte);
                TickOutcome::Continue
            },
            Instr::SkipEqReg(x, y) => {
                self.skip_registers_eq(x, y);
                TickOutcome::Continue
            },
            Instr::LoadImm(x, byte) => {
                self.load_register(x, byte);
                TickOutcome::Continue
            },
            Instr::AddImm(x, byte) => {
                self.add_to_register(x, byte);
                TickOutcome::Continue
            },
            Instr::LoadReg(x, y) => {
                self.load(x, y);
                TickOutcome::Continue
            },
            Instr::OrReg(x, y) => {
                self.or(x, y);
                TickOutcome::Continue
            },
            Instr::AndReg(x, y) => {
                self.and(x, y);
                TickOutcome::Continue
            },
            Instr::XorReg(x, y) => {
                self.xor(x, y);
                TickOutcome::Continue
            },
            Instr::AddReg(x, y) => {
                self.add_xy(x, y);
                TickOutcome::Continue
            },
            Instr::SubReg(x, y) => {
                self.sub_xy(x, y);
                TickOutcome::Continue
            },
            Instr::ShrReg(x) => {
                self.shift_right(x);
                TickOutcome::Continue
            },
            Instr::SubnReg(x, y) => {
                self.subn(x, y);
                TickOutcome::Continue
            },
            Instr::ShlReg(x) => {
                self.shift_left(x);
                TickOutcome::Continue
            },
            Instr::SkipNeReg(x, y) => {
                self.skip_registers_ne(x, y);
                TickOutcome::Continue
            },
            Instr::LoadI(addr) => {
                self.load_i_reg(addr);
                TickOutcome::Continue
            },
            Instr::JumpV0(addr) => {
                self.jump_from(addr);
                TickOutcome::Continue
            },
            Instr::RandMask(x, byte) => {
                self.rand(x, byte);
                TickOutcome::Continue
            },
            Instr::Draw(x, y, n) => {
                if self.i_register as usize + n as usize <= 4096 {
                    self.display(x, y, n);
                    TickOutcome::Continue
                } else {
                    TickOutcome::Fault(Fault::OutOfBounds)
                }
            },
            Instr::SkipKey(x) => {
                if self.v_registers[x as usize] < 16 {
                    self.skip_if_key(x);
                    TickOutcome::Continue
                } else {
                    TickOutcome::Fault(Fault::OutOfBounds)
                }
            },
            Instr::SkipNoKey(x) => {
                if self.v_registers[x as usize] < 16 {
                    self.skip_not_key(x);
                    TickOutcome::Continue
                } else {
                    TickOutcome::Fault(Fault::OutOfBounds)
                }
            },
            Instr::ReadDelay(x) => {
                self.set_register_to_delay(x);
                TickOutcome::Continue
            },
            Instr::WaitKey(x) => {
                self.wait_timer(x);
                TickOutcome::Continue
            },
            Instr::SetDelay(x) => {
                self.set_timer(x);
                TickOutcome::Continue
            },
            Instr::SetSound(x) => {
                self.set_sound_timer(x);
                TickOutcome::Continue
            },
            Instr::AddI(x) => {
                self.add_to_i_register(x);
                TickOutcome::Continue
            },
            Instr::FontAddr(x) => {
                self.set_i_to_font_addr(x);
                TickOutcome::Continue
            },
            Instr::StoreBcd(x) => {
                if (self.i_register as usize) + 2 < 4096 {
                    self.store_bcd_encoding(x);
                    TickOutcome::Continue
                } else {
                    TickOutcome::Fault(Fault::OutOfBounds)
                }
            },
            Instr::StoreRegs(x) => {
                if (self.i_register as usize) + (x as usize) < 4096 {
                    self.store_registers_at_i(x);
                    TickOutcome::Continue
                } else {
                    TickOutcome::Fault(Fault::OutOfBounds)
                }
            },
            Instr::LoadRegs(x) => {
                if (self.i_register as usize) + (x as usize) < 4096 {
                    self.load_registers_from_i_addr(x);
                    TickOutcome::Continue
                } else {
                    TickOutcome::Fault(Fault::OutOfBounds)
                }
            },
            Instr::Unknown => TickOutcome::Fault(Fault::UnknownOpcode),
        }
    }
}

} // verus!

//! The mathematical model of the machine: every piece of mutable state as a
//! ghost value, together with the well-formedness bounds that hold of a
//! machine at all times.

use vstd::prelude::*;

verus! {

/// Number of general-purpose registers (V0 through VF).
pub const NUM_REGS: usize = 16;
/// Size of the machine's memory in bytes.
pub const RAM_SIZE: usize = 4096;
/// Width of the framebuffer in pixels.
pub const SCREEN_WIDTH: usize = 64;
/// Height of the framebuffer in pixels.
pub const SCREEN_HEIGHT: usize = 32;
/// Capacity of the subroutine call stack.
pub const STACK_SIZE: usize = 16;
/// Number of keypad keys.
pub const NUM_KEYS: usize = 16;
/// Memory address where loaded programs begin and where the program counter
/// starts.
pub const START_ADDR: u16 = 0x200;

/// The complete machine state as mathematical values: the register file, the
/// address register I, the program counter, memory, the active entries of the
/// call stack (bottom first), the framebuffer in row-major order
/// (index = x + 64*y), the keypad, and the two countdown timers.
#[verifier::ext_equal]
pub ghost struct MachineView {
    pub regs: Seq<u8>,
    pub i: u16,
    pub pc: u16,
    pub mem: Seq<u8>,
    pub stack: Seq<u16>,
    pub display: Seq<bool>,
    pub keys: Seq<bool>,
    pub delay: u8,
    pub sound: u8,
}

impl MachineView {
    /// The architectural size bounds: 16 registers, 4096 bytes of memory, at
    /// most 16 stacked return addresses, 64*32 pixels, 16 keys.
    pub open spec fn wf(self) -> bool {
        &&& self.regs.len() == NUM_REGS
        &&& self.mem.len() == RAM_SIZE
        &&& self.stack.len() <= STACK_SIZE
        &&& self.display.len() == SCREEN_WIDTH * SCREEN_HEIGHT
        &&& self.keys.len() == NUM_KEYS
    }
}

/// The machine before anything is loaded: everything zeroed or released,
/// the program counter at the program entry offset.
pub open spec fn blank_view() -> MachineView {
    MachineView {
        regs: Seq::new(NUM_REGS as nat, |j: int| 0u8),
        i: 0u16,
        pc: START_ADDR,
        mem: Seq::new(RAM_SIZE as nat, |j: int| 0u8),
        stack: Seq::empty(),
        display: Seq::new((SCREEN_WIDTH * SCREEN_HEIGHT) as nat, |j: int| false),
        keys: Seq::new(NUM_KEYS as nat, |j: int| false),
        delay: 0u8,
        sound: 0u8,
    }
}

/// The built-in font: 16 glyphs of 5 bytes each, one per hexadecimal digit,
/// written at address 0 when a machine is created.
pub open spec fn font_table() -> Seq<u8> {
    seq![
        0xF0u8, 0x90, 0x90, 0x90, 0xF0,
        0x20, 0x60, 0x20, 0x20, 0x70,
        0xF0, 0x10, 0xF0, 0x80, 0xF0,
        0xF0, 0x10, 0xF0, 0x10, 0xF0,
        0x90, 0x90, 0xF0, 0x10, 0x10,
        0xF0, 0x80, 0xF0, 0x10, 0xF0,
        0xF0, 0x80, 0xF0, 0x90, 0xF0,
        0xF0, 0x10, 0x20, 0x40, 0x40,
        0xF0, 0x90, 0xF0, 0x90, 0xF0,
        0xF0, 0x90, 0xF0, 0x10, 0xF0,
        0xF0, 0x90, 0xF0, 0x90, 0x90,
        0xE0, 0x90, 0xE0, 0x90, 0xE0,
        0xF0, 0x80, 0x80, 0x80, 0xF0,
        0xE0, 0x90, 0x90, 0x90, 0xE0,
        0xF0, 0x80, 0xF0, 0x80, 0xF0,
        0xF0, 0x80, 0xF0, 0x80, 0x80,
    ]
}

/// A freshly created machine: blank, with the font written at address 0.
pub open spec fn init_view() -> MachineView {
    MachineView {
        mem: Seq::new(
            RAM_SIZE as nat,
            |j: int|
                if j < 80 {
                    font_table()[j]
                } else {
                    0u8
                },
        ),
        ..blank_view()
    }
}

/// The (x, y) coordinates of every lit pixel among the first `k` cells of
/// the framebuffer, in row-major index order.
pub open spec fn lit_points_of(disp: Seq<bool>, k: int) -> Seq<(u8, u8)>
    decreases k,
{
    if k <= 0 {
        Seq::empty()
    } else {
        let rest = lit_points_of(disp, k - 1);
        if disp[k - 1] {
            rest.push((((k - 1) % 64) as u8, ((k - 1) / 64) as u8))
        } else {
            rest
        }
    }
}

/// `mem` with the bytes of `data` written at `start` onward and every other
/// byte unchanged.
pub open spec fn spliced(mem: Seq<u8>, start: int, data: Seq<u8>) -> Seq<u8> {
    Seq::new(
        mem.len(),
        |j: int|
            if start <= j < start + data.len() {
                data[j - start]
            } else {
                mem[j]
            },
    )
}

} // verus!

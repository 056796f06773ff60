//! A CHIP-8 virtual machine core: a fixed 4096-byte memory, sixteen 8-bit
//! registers, a 16-entry call stack, a 64x32 monochrome framebuffer, a
//! 16-key keypad and two countdown timers, driven one instruction at a time.
//!
//! The machine's behaviour is captured by a ghost model ([`state::MachineView`])
//! and a step relation ([`trans::step_rel`]) that gives the exact state
//! transition of every opcode; [`machine::Chip8Emulator::tick`] is proved to
//! follow that relation.

pub mod draw;
pub mod isa;
pub mod laws;
pub mod machine;
pub mod state;
pub mod trans;

pub use isa::Fault;
pub use isa::Instr;
pub use isa::TickOutcome;
pub use machine::Chip8Emulator;
pub use state::MachineView;

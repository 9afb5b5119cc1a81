//! The core of a small 8-bit virtual machine: sixteen registers, a 4 KiB
//! address space, a 64x32 one-bit frame buffer, two timers and a hex keypad.
//!
//! Every contract is stated over [`model::State`], the mathematical picture
//! of the machine, which [`cpu::CPU`] exposes through its view.

pub mod types;
pub mod font;
pub mod decode;
pub mod model;
mod random;
pub mod cpu;
pub mod laws;

pub use crate::cpu::CPU;
pub use crate::decode::{decode, Instruction};
pub use crate::font::{FONTSET, GLYPH_SIZE};
pub use crate::types::{
    CycleEvent, Fault, LoadError, Quirks, Snapshot, Status, DISPLAY_HEIGHT, DISPLAY_WIDTH,
    FONT_BASE, MAX_ROM_SIZE, PROGRAM_START,
};

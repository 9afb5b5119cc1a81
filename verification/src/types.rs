use vstd::prelude::*;

verus! {

/// Address at which a program is placed and at which execution starts.
pub const PROGRAM_START: u16 = 0x200;

/// Largest program that fits between `PROGRAM_START` and the end of memory.
pub const MAX_ROM_SIZE: usize = 3584;

/// Address of the first byte of the built-in glyph table.
pub const FONT_BASE: u16 = 0x50;

/// Width of the frame buffer in pixels.
pub const DISPLAY_WIDTH: usize = 64;

/// Height of the frame buffer in pixels.
pub const DISPLAY_HEIGHT: usize = 32;

/// Points on which historical machines disagree. The default is the
/// behaviour with every switch off.
#[derive(Clone, Copy, Debug, PartialEq, Eq, Structural)]
pub struct Quirks {
    /// Subtractions set the flag register to 1 when a borrow occurred,
    /// instead of when none did.
    pub borrow_sets_flag: bool,
    /// Sprite pixels that fall off an edge of the frame re-enter on the
    /// opposite side, instead of being dropped.
    pub wrap_sprites: bool,
    /// Adding a register to the index register writes 1 to the flag
    /// register when the sum leaves the address space, and 0 otherwise.
    pub index_overflow_flag: bool,
    /// Storing or loading registers `0..=x` moves the index register past
    /// the bytes that were touched, instead of leaving it alone.
    pub advance_index: bool,
}

impl Default for Quirks {
    fn default() -> (q: Quirks)
        ensures
            q == Quirks::canonical(),
    {
        Quirks {
            borrow_sets_flag: false,
            wrap_sprites: false,
            index_overflow_flag: false,
            advance_index: false,
        }
    }
}

impl Quirks {
    /// The settings with every switch off.
    pub open spec fn canonical() -> Quirks {
        Quirks {
            borrow_sets_flag: false,
            wrap_sprites: false,
            index_overflow_flag: false,
            advance_index: false,
        }
    }
}

/// What the machine is doing between two cycles.
#[derive(Clone, Copy, Debug, PartialEq, Eq, Structural)]
pub enum Status {
    /// The next cycle fetches and executes an instruction.
    Running,
    /// The machine waits for a key to go down; the key's number will be
    /// stored in the register named here.
    AwaitingKey(u8),
    /// A fault stopped the machine; only a reset or a load restarts it.
    Halted,
}

/// What one cycle reports to the host on success.
#[derive(Clone, Copy, Debug, PartialEq, Eq, Structural)]
pub enum CycleEvent {
    /// An instruction was executed, or a pending key wait was completed.
    Continued,
    /// The machine is waiting for a key to go down.
    AwaitingKey,
    /// The machine was already halted; nothing happened.
    Halted,
}

/// A fatal condition met while executing an instruction.
#[derive(Clone, Copy, Debug, PartialEq, Eq, Structural)]
pub enum Fault {
    /// No instruction has this encoding. `pc` is the address it was
    /// fetched from.
    UnknownOpcode { instruction: u16, pc: u16 },
    /// A call was attempted with sixteen return addresses already stored.
    StackOverflow,
    /// A return was attempted with no return address stored.
    StackUnderflow,
}

/// Why a program could not be loaded.
#[derive(Clone, Copy, Debug, PartialEq, Eq, Structural)]
pub enum LoadError {
    /// The program has `size` bytes but only `capacity` fit.
    ROMTooLarge { size: usize, capacity: usize },
}

/// A copy of the register file and the timers, for diagnostics.
#[derive(Clone, Copy, Debug, PartialEq, Eq)]
pub struct Snapshot {
    pub registers: [u8; 16],
    pub index: u16,
    pub pc: u16,
    pub sp: u8,
    pub delay_timer: u8,
    pub sound_timer: u8,
}

} // verus!

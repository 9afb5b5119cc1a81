use vstd::prelude::*;
use crate::font::FONTSET;
use crate::model::{initial, State};
use crate::types::{
    CycleEvent, Fault, LoadError, Quirks, Snapshot, Status, FONT_BASE, MAX_ROM_SIZE,
    PROGRAM_START,
};

pub mod instructions;

verus! {

/// The machine: memory, register file, timers, frame buffer and keypad,
/// owned as one value.
pub struct CPU {
    registers: [u8; 16],
    memory: [u8; 4096],
    index: u16,
    pc: u16,
    stack: [u16; 16],
    sp: u8,
    delay_timer: u8,
    sound_timer: u8,
    keys: [bool; 16],
    latch: [bool; 16],
    display: [[u8; 64]; 32],
    draw_flag: bool,
    status: Status,
    quirks: Quirks,
}

impl View for CPU {
    type V = State;

    closed spec fn view(&self) -> State {
        State {
            registers: self.registers@,
            memory: self.memory@,
            index: self.index,
            pc: self.pc,
            stack: self.stack@,
            sp: self.sp,
            delay_timer: self.delay_timer,
            sound_timer: self.sound_timer,
            keys: self.keys@,
            latch: self.latch@,
            display: Seq::new(32, |r: int| self.display[r]@),
            dirty: self.draw_flag,
            status: self.status,
            quirks: self.quirks,
        }
    }
}

impl CPU {
    /// The invariant that every constructor establishes and every method
    /// keeps.
    pub open spec fn wf(&self) -> bool {
        self@.wf()
    }

    /// A machine with the canonical behaviour, ready to run from `0x200`.
    pub fn new() -> (cpu: CPU)
        ensures
            cpu.wf(),
            cpu@ == initial(Quirks::canonical()),
    {
        CPU::with_quirks(Quirks::default())
    }

    /// A machine with the given quirk settings.
    pub fn with_quirks(quirks: Quirks) -> (cpu: CPU)
        ensures
            cpu.wf(),
            cpu@ == initial(quirks),
    {
        let mut memory = [0u8; 4096];
        let mut i: usize = 0;
        while i < 80
            invariant
                i <= 80,
                forall|a: int| 0 <= a < 4096 ==> memory[a] == (if 0x50 <= a < 0x50 + i {
                    FONTSET[a - 0x50]
                } else {
                    0u8
                }),
            decreases 80 - i,
        {
            memory[FONT_BASE as usize + i] = FONTSET[i];
            i += 1;
        }
        let cpu = CPU {
            registers: [0u8; 16],
            memory,
            index: 0,
            pc: PROGRAM_START,
            stack: [0u16; 16],
            sp: 0,
            delay_timer: 0,
            sound_timer: 0,
            keys: [false; 16],
            latch: [false; 16],
            display: [[0u8; 64]; 32],
            draw_flag: false,
            status: Status::Running,
            quirks,
        };
        proof {
            assert(cpu@.display =~~= initial(quirks).display);
            assert(cpu@ =~= initial(quirks));
        }
        cpu
    }

    /// Puts the machine back into the state a new one has, keeping its
    /// quirk settings.
    pub fn reset(&mut self)
        ensures
            final(self).wf(),
            final(self)@ == initial(old(self)@.quirks),
    {
        *self = CPU::with_quirks(self.quirks);
    }

    /// Loads a program: its bytes are copied to memory from `0x200` on, the
    /// general registers, the stack and the timers are cleared, and the
    /// machine runs again from `0x200`. Memory outside the program, the
    /// index register, the frame buffer and the keys stay as they were. A
    /// program of more than 3584 bytes is refused and nothing changes.
    pub fn load_rom(&mut self, rom: Vec<u8>) -> (res: Result<(), LoadError>)
        requires
            old(self).wf(),
        ensures
            final(self).wf(),
            rom.len() <= 3584 ==> res == Ok::<(), LoadError>(()) && final(self)@ == old(self)@.loaded(
                rom@,
            ),
            rom.len() > 3584 ==> res == Err::<(), LoadError>(
                (LoadError::ROMTooLarge { size: rom.len(), capacity: 3584 }),
            ) && final(self)@ == old(self)@,
    {
        let size = rom.len();
        if size > MAX_ROM_SIZE {
            return Err(LoadError::ROMTooLarge { size, capacity: MAX_ROM_SIZE });
        }
        let mut i: usize = 0;
        while i < size
            invariant
                i <= size,
                size == rom.len(),
                size <= 3584,
                self@ == (State { memory: self@.memory, ..old(self)@ }),
                forall|a: int|
                    0 <= a < 4096 ==> self.memory[a] == (if 0x200 <= a < 0x200 + i {
                        rom@[a - 0x200]
                    } else {
                        old(self).memory[a]
                    }),
            decreases size - i,
        {
            self.memory[0x200 + i] = rom[i];
            i += 1;
        }
        self.registers = [0u8; 16];
        self.stack = [0u16; 16];
        self.sp = 0;
        self.pc = PROGRAM_START;
        self.delay_timer = 0;
        self.sound_timer = 0;
        self.status = Status::Running;
        proof {
            assert(self@ =~= old(self)@.loaded(rom@));
        }
        Ok(())
    }

    /// Records that the host saw key `index` go down or up. An index
    /// outside `0..16` names no key and changes nothing.
    pub fn set_key(&mut self, index: usize, pressed: bool)
        requires
            old(self).wf(),
        ensures
            final(self).wf(),
            index < 16 ==> final(self)@ == old(self)@.with_key(index as int, pressed),
            index >= 16 ==> final(self)@ == old(self)@,
    {
        if index < 16 {
            self.keys[index] = pressed;
        }
    }

    /// One tick of the 60 Hz clock: each timer that is not zero loses one;
    /// a timer at zero stays there.
    pub fn tick_timers(&mut self)
        requires
            old(self).wf(),
        ensures
            final(self).wf(),
            final(self)@ == old(self)@.ticked(),
    {
        if self.delay_timer > 0 {
            self.delay_timer -= 1;
        }
        if self.sound_timer > 0 {
            self.sound_timer -= 1;
        }
    }

    /// Tells whether a draw happened since the last call, and forgets it.
    pub fn take_dirty(&mut self) -> (dirty: bool)
        requires
            old(self).wf(),
        ensures
            final(self).wf(),
            dirty == old(self)@.dirty,
            final(self)@ == (State { dirty: false, ..old(self)@ }),
    {
        let dirty = self.draw_flag;
        self.draw_flag = false;
        dirty
    }

    /// The frame buffer, `frame_buffer()[row][column]`, each cell 0 or 1.
    pub fn frame_buffer(&self) -> (fb: &[[u8; 64]; 32])
        ensures
            forall|r: int, c: int| 0 <= r < 32 && 0 <= c < 64 ==> fb[r][c] == self@.display[r][c],
    {
        &self.display
    }

    /// The whole address space.
    pub fn memory(&self) -> (m: &[u8; 4096])
        ensures
            m@ == self@.memory,
    {
        &self.memory
    }

    /// The call stack; its live entries are the first `sp`.
    pub fn stack(&self) -> (st: &[u16; 16])
        ensures
            st@ == self@.stack,
    {
        &self.stack
    }

    /// The current level of every key.
    pub fn keys(&self) -> (k: &[bool; 16])
        ensures
            k@ == self@.keys,
    {
        &self.keys
    }

    /// What the machine is doing.
    pub fn status(&self) -> (st: Status)
        ensures
            st == self@.status,
    {
        self.status
    }

    /// The quirk settings the machine was built with.
    pub fn quirks(&self) -> (q: Quirks)
        ensures
            q == self@.quirks,
    {
        self.quirks
    }

    /// A copy of the registers and timers.
    pub fn snapshot(&self) -> (snap: Snapshot)
        ensures
            snap.registers@ == self@.registers,
            snap.index == self@.index,
            snap.pc == self@.pc,
            snap.sp == self@.sp,
            snap.delay_timer == self@.delay_timer,
            snap.sound_timer == self@.sound_timer,
    {
        Snapshot {
            registers: self.registers,
            index: self.index,
            pc: self.pc,
            sp: self.sp,
            delay_timer: self.delay_timer,
            sound_timer: self.sound_timer,
        }
    }

    /// The instruction word at the program counter: the byte there is the
    /// high half, the byte after it (at address 0 when the counter is at
    /// the last byte) the low half.
    pub fn opcode(&self) -> (word: u16)
        requires
            self.wf(),
        ensures
            word == self@.fetch(),
    {
        let hi = self.memory[self.pc as usize] as u16;
        let lo = self.memory[((self.pc + 1) % 4096) as usize] as u16;
        assert(hi < 256 && lo < 256 ==> (hi << 8 | lo) == hi * 256 + lo) by (bit_vector);
        hi << 8 | lo
    }

    /// One cycle of the machine.
    ///
    /// A running machine fetches the instruction at the program counter,
    /// moves the counter past it and executes it; a fault halts the machine
    /// and is returned. A machine that waits for a key looks at the keys
    /// once and resumes on an edge. A halted machine does nothing.
    pub fn emulate_cycle(&mut self) -> (res: Result<CycleEvent, Fault>)
        requires
            old(self).wf(),
        ensures
            final(self).wf(),
            res == old(self)@.cycle_result(),
            !old(self)@.wants_random() ==> final(self)@ == old(self)@.cycled(0),
            exists|random: u8| final(self)@ == #[trigger] old(self)@.cycled(random),
    {
        match self.status {
            Status::Halted => {
                assert(self@ == old(self)@.cycled(0));
                Ok(CycleEvent::Halted)
            },
            Status::AwaitingKey(x) => {
                let event = self.poll_key(x);
                assert(self@ == old(self)@.cycled(0));
                Ok(event)
            },
            Status::Running => {
                let opcode = self.opcode();
                self.pc = (self.pc + 2) % 4096;
                let ghost fetched = self@;
                assert(fetched == old(self)@.advanced());
                match self.parse_opcode(opcode) {
                    Err(fault) => Err(fault),
                    Ok(()) => {
                        proof {
                            let random = choose|random: u8|
                                self@ == #[trigger] fetched.executed(opcode, random);
                            assert(self@ == old(self)@.cycled(random));
                        }
                        match self.status {
                            Status::AwaitingKey(_) => Ok(CycleEvent::AwaitingKey),
                            _ => Ok(CycleEvent::Continued),
                        }
                    },
                }
            },
        }
    }

    /// One look of a pending key wait for register `x`.
    fn poll_key(&mut self, x: u8) -> (event: CycleEvent)
        requires
            old(self).wf(),
            x < 16,
        ensures
            final(self).wf(),
            final(self)@ == old(self)@.polled(x),
            event == (if old(self)@.first_edge(0) < 16 {
                CycleEvent::Continued
            } else {
                CycleEvent::AwaitingKey
            }),
    {
        let mut k: usize = 0;
        while k < 16 && !(self.keys[k] && !self.latch[k])
            invariant
                k <= 16,
                self == old(self),
                self@.first_edge(0) == self@.first_edge(k as int),
            decreases 16 - k,
        {
            k += 1;
        }
        self.latch = self.keys;
        if k < 16 {
            self.registers[x as usize] = k as u8;
            self.pc = (self.pc + 2) % 4096;
            self.status = Status::Running;
            CycleEvent::Continued
        } else {
            CycleEvent::AwaitingKey
        }
    }
}

} // verus!

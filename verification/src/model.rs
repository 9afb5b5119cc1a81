use vstd::prelude::*;
use crate::decode::{decode_spec, Instruction};
use crate::font::FONTSET;
use crate::types::{CycleEvent, Fault, Quirks, Status};

verus! {

/// The machine as a mathematical value. Executable code never holds one;
/// contracts speak of it through the view of `CPU`.
#[verifier::ext_equal]
pub struct State {
    /// The general registers `V0..=VF`; `VF` doubles as the flag output.
    pub registers: Seq<u8>,
    /// The address space.
    pub memory: Seq<u8>,
    /// The index register `I`.
    pub index: u16,
    /// The program counter.
    pub pc: u16,
    /// The return addresses; the live ones are `stack[0..sp]`.
    pub stack: Seq<u16>,
    /// Number of live return addresses.
    pub sp: u8,
    pub delay_timer: u8,
    pub sound_timer: u8,
    /// Current level of each key.
    pub keys: Seq<bool>,
    /// Level of each key when a pending key wait last looked.
    pub latch: Seq<bool>,
    /// The frame buffer, `display[row][column]`, each cell 0 or 1.
    pub display: Seq<Seq<u8>>,
    /// Whether a draw happened since the host last asked.
    pub dirty: bool,
    pub status: Status,
    pub quirks: Quirks,
}

/// `a` reduced to the twelve bits of an address.
pub open spec fn wrap_address(a: int) -> u16 {
    (a % 4096) as u16
}

/// A frame buffer with every pixel off.
pub open spec fn blank_display() -> Seq<Seq<u8>> {
    Seq::new(32, |r: int| Seq::new(64, |c: int| 0u8))
}

/// The glyph table occupies `0x50..0xA0` of `memory`.
pub open spec fn font_seeded(memory: Seq<u8>) -> bool {
    forall|i: int| 0 <= i < 80 ==> #[trigger] memory[0x50 + i] == FONTSET[i]
}

/// The machine right after construction or reset.
pub open spec fn initial(quirks: Quirks) -> State {
    State {
        registers: Seq::new(16, |i: int| 0u8),
        memory: Seq::new(
            4096,
            |a: int|
                if 0x50 <= a < 0xA0 {
                    FONTSET[a - 0x50]
                } else {
                    0u8
                },
        ),
        index: 0,
        pc: 0x200,
        stack: Seq::new(16, |i: int| 0u16),
        sp: 0,
        delay_timer: 0,
        sound_timer: 0,
        keys: Seq::new(16, |i: int| false),
        latch: Seq::new(16, |i: int| false),
        display: blank_display(),
        dirty: false,
        status: Status::Running,
        quirks,
    }
}

impl State {
    /// The shape every reachable machine has.
    pub open spec fn wf(self) -> bool {
        &&& self.registers.len() == 16
        &&& self.memory.len() == 4096
        &&& self.stack.len() == 16
        &&& self.keys.len() == 16
        &&& self.latch.len() == 16
        &&& self.display.len() == 32
        &&& forall|r: int| 0 <= r < 32 ==> (#[trigger] self.display[r]).len() == 64
        &&& forall|r: int, c: int|
            0 <= r < 32 && 0 <= c < 64 ==> #[trigger] self.display[r][c] <= 1
        &&& forall|k: int| 0 <= k < 16 ==> #[trigger] self.stack[k] < 4096
        &&& self.index < 4096
        &&& self.pc < 4096
        &&& self.sp <= 16
        &&& (self.status matches Status::AwaitingKey(x) ==> x < 16)
    }

    /// The byte at address `a`, taken modulo the address space.
    pub open spec fn byte_at(self, a: int) -> u8 {
        self.memory[a % 4096]
    }

    pub open spec fn with_reg(self, x: int, v: u8) -> State {
        State { registers: self.registers.update(x, v), ..self }
    }

    pub open spec fn with_flag(self, v: u8) -> State {
        self.with_reg(15, v)
    }

    /// The program counter moved past one more instruction when `cond` holds.
    pub open spec fn skip_if(self, cond: bool) -> State {
        if cond {
            State { pc: wrap_address(self.pc + 2), ..self }
        } else {
            self
        }
    }

    /// The machine stopped by a fault: nothing else changes.
    pub open spec fn halted(self) -> State {
        State { status: Status::Halted, ..self }
    }

    /// The program after a load of `rom` (at most 3584 bytes): the program
    /// bytes replace memory from `0x200` on, the general registers, the
    /// stack and the timers are cleared, and execution restarts at `0x200`.
    pub open spec fn loaded(self, rom: Seq<u8>) -> State {
        State {
            memory: Seq::new(
                4096,
                |a: int|
                    if 0x200 <= a < 0x200 + rom.len() {
                        rom[a - 0x200]
                    } else {
                        self.memory[a]
                    },
            ),
            registers: Seq::new(16, |i: int| 0u8),
            stack: Seq::new(16, |i: int| 0u16),
            sp: 0,
            pc: 0x200,
            delay_timer: 0,
            sound_timer: 0,
            status: Status::Running,
            ..self
        }
    }

    /// One 60 Hz tick: each timer that is not zero loses one.
    pub open spec fn ticked(self) -> State {
        State {
            delay_timer: if self.delay_timer > 0 {
                (self.delay_timer - 1) as u8
            } else {
                0
            },
            sound_timer: if self.sound_timer > 0 {
                (self.sound_timer - 1) as u8
            } else {
                0
            },
            ..self
        }
    }

    /// `n` ticks in a row.
    pub open spec fn ticked_times(self, n: nat) -> State
        decreases n,
    {
        if n == 0 {
            self
        } else {
            self.ticked().ticked_times((n - 1) as nat)
        }
    }

    pub open spec fn with_key(self, k: int, pressed: bool) -> State {
        State { keys: self.keys.update(k, pressed), ..self }
    }

    // ----- the instructions -------------------------------------------

    /// The register-to-register family `8xyN`, for `N` in `0..=7` or `0xE`.
    /// The result is written first and the flag second, so the flag wins
    /// when `x` is 15.
    pub open spec fn alu(self, d: Instruction) -> State {
        let vx = self.registers[d.x as int];
        let vy = self.registers[d.y as int];
        let result = self.with_reg(d.x as int, alu_value(d.n, vx, vy));
        match alu_flag(self.quirks, d.n, vx, vy) {
            Some(flag) => result.with_flag(flag),
            None => result,
        }
    }

    /// Return: the newest return address becomes the program counter.
    pub open spec fn returned(self) -> State {
        State { sp: (self.sp - 1) as u8, pc: self.stack[self.sp - 1], ..self }
    }

    /// Call: the program counter is pushed, then replaced by `nnn`.
    pub open spec fn called(self, nnn: u16) -> State {
        State {
            stack: self.stack.update(self.sp as int, self.pc),
            sp: (self.sp + 1) as u8,
            pc: nnn,
            ..self
        }
    }

    /// Whether column `col` (0 is leftmost) of sprite row `row` is set. The
    /// rows are the bytes from `index` on, most significant bit first.
    pub open spec fn sprite_bit(self, row: int, col: int) -> bool {
        self.byte_at(self.index + row) & (0x80u8 >> (col as u8)) != 0
    }

    /// How far `at` lies right of (or below) `origin` on an axis of `size`
    /// pixels: the plain difference when sprites are clipped, the difference
    /// modulo `size` when they wrap.
    pub open spec fn sprite_offset(self, origin: int, at: int, size: int) -> int {
        if self.quirks.wrap_sprites {
            (at - origin) % size
        } else {
            at - origin
        }
    }

    /// Whether drawing `d` flips the pixel at row `r`, column `c`: the
    /// sprite, placed with its corner at (`Vx mod 64`, `Vy mod 32`), covers
    /// the pixel with a set bit.
    pub open spec fn toggles(self, d: Instruction, r: int, c: int) -> bool {
        let row = self.sprite_offset(self.registers[d.y as int] as int % 32, r, 32);
        let col = self.sprite_offset(self.registers[d.x as int] as int % 64, c, 64);
        0 <= row < d.n && 0 <= col < 8 && self.sprite_bit(row, col)
    }

    /// Whether drawing `d` flips some pixel that is on.
    pub open spec fn collides(self, d: Instruction) -> bool {
        exists|r: int, c: int|
            0 <= r < 32 && 0 <= c < 64 && #[trigger] self.toggles(d, r, c) && self.display[r][c]
                == 1
    }

    /// Draw: every covered pixel is flipped, the flag register says
    /// whether a lit pixel went dark, and the frame is marked dirty.
    pub open spec fn drawn(self, d: Instruction) -> State {
        State {
            display: Seq::new(
                32,
                |r: int|
                    Seq::new(
                        64,
                        |c: int|
                            if self.toggles(d, r, c) {
                                self.display[r][c] ^ 1
                            } else {
                                self.display[r][c]
                            },
                    ),
            ),
            registers: self.registers.update(
                15,
                if self.collides(d) {
                    1u8
                } else {
                    0u8
                },
            ),
            dirty: true,
            ..self
        }
    }

    /// The index register after a bulk store or load of registers `0..=x`.
    pub open spec fn index_after_bulk(self, x: u8) -> u16 {
        if self.quirks.advance_index {
            wrap_address(self.index + x + 1)
        } else {
            self.index
        }
    }

    /// Registers `0..=x` copied to memory from `index` on.
    pub open spec fn stored(self, x: u8) -> State {
        State {
            memory: Seq::new(
                4096,
                |a: int|
                    if (a - self.index) % 4096 <= x {
                        self.registers[(a - self.index) % 4096]
                    } else {
                        self.memory[a]
                    },
            ),
            index: self.index_after_bulk(x),
            ..self
        }
    }

    /// Registers `0..=x` filled from memory from `index` on.
    pub open spec fn fetched(self, x: u8) -> State {
        State {
            registers: Seq::new(
                16,
                |k: int|
                    if k <= x {
                        self.byte_at(self.index + k)
                    } else {
                        self.registers[k]
                    },
            ),
            index: self.index_after_bulk(x),
            ..self
        }
    }

    /// The three decimal digits of `Vx` written at `index`, `index + 1` and
    /// `index + 2`, hundreds first.
    pub open spec fn decimal_stored(self, x: u8) -> State {
        let v = self.registers[x as int];
        State {
            memory: self.memory.update(self.index as int, v / 100).update(
                (self.index + 1) % 4096,
                v / 10 % 10,
            ).update((self.index + 2) % 4096, v % 10),
            ..self
        }
    }

    /// `Vx` added to the index register, within twelve bits.
    pub open spec fn index_added(self, x: u8) -> State {
        let sum = self.index + self.registers[x as int];
        let moved = State { index: wrap_address(sum), ..self };
        if self.quirks.index_overflow_flag {
            moved.with_flag(
                if sum > 4095 {
                    1
                } else {
                    0
                },
            )
        } else {
            moved
        }
    }

    /// The start of a key wait: the program counter goes back to the
    /// waiting instruction and the current key levels are remembered.
    pub open spec fn waiting(self, x: u8) -> State {
        State {
            status: Status::AwaitingKey(x),
            pc: wrap_address(self.pc + 4094),
            latch: self.keys,
            ..self
        }
    }

    /// The family `Fxkk`, for the nine defined values of `kk`.
    pub open spec fn misc(self, d: Instruction) -> State {
        let x = d.x as int;
        if d.kk == 0x07 {
            self.with_reg(x, self.delay_timer)
        } else if d.kk == 0x0A {
            self.waiting(d.x)
        } else if d.kk == 0x15 {
            State { delay_timer: self.registers[x], ..self }
        } else if d.kk == 0x18 {
            State { sound_timer: self.registers[x], ..self }
        } else if d.kk == 0x1E {
            self.index_added(d.x)
        } else if d.kk == 0x29 {
            State { index: (0x50 + 5 * self.registers[x]) as u16, ..self }
        } else if d.kk == 0x33 {
            self.decimal_stored(d.x)
        } else if d.kk == 0x55 {
            self.stored(d.x)
        } else {
            self.fetched(d.x)
        }
    }

    /// Whether the key named by the low four bits of `Vx` is down.
    pub open spec fn key_down(self, x: u8) -> bool {
        self.keys[self.registers[x as int] as int % 16]
    }

    /// What a defined instruction that raises no fault does to the machine
    /// whose program counter already points past it. `random` is the byte
    /// the random instruction takes.
    pub open spec fn effect(self, d: Instruction, random: u8) -> State {
        let vx = self.registers[d.x as int];
        let vy = self.registers[d.y as int];
        if d.op == 0x0 {
            if d.nnn == 0x0E0 {
                State { display: blank_display(), ..self }
            } else {
                self.returned()
            }
        } else if d.op == 0x1 {
            State { pc: d.nnn, ..self }
        } else if d.op == 0x2 {
            self.called(d.nnn)
        } else if d.op == 0x3 {
            self.skip_if(vx == d.kk)
        } else if d.op == 0x4 {
            self.skip_if(vx != d.kk)
        } else if d.op == 0x5 {
            self.skip_if(vx == vy)
        } else if d.op == 0x6 {
            self.with_reg(d.x as int, d.kk)
        } else if d.op == 0x7 {
            self.with_reg(d.x as int, ((vx + d.kk) % 256) as u8)
        } else if d.op == 0x8 {
            self.alu(d)
        } else if d.op == 0x9 {
            self.skip_if(vx != vy)
        } else if d.op == 0xA {
            State { index: d.nnn, ..self }
        } else if d.op == 0xB {
            State { pc: wrap_address(self.registers[0] + d.nnn), ..self }
        } else if d.op == 0xC {
            self.with_reg(d.x as int, random & d.kk)
        } else if d.op == 0xD {
            self.drawn(d)
        } else if d.op == 0xE {
            self.skip_if((d.kk == 0x9E) == self.key_down(d.x))
        } else {
            self.misc(d)
        }
    }

    /// The fault that executing `opcode` raises, if any.
    pub open spec fn fault_of(self, opcode: u16) -> Option<Fault> {
        let d = decode_spec(opcode);
        if !defined(d) {
            Some(Fault::UnknownOpcode { instruction: opcode, pc: wrap_address(self.pc + 4094) })
        } else if d.op == 0x0 && d.nnn == 0x0EE && self.sp == 0 {
            Some(Fault::StackUnderflow)
        } else if d.op == 0x2 && self.sp == 16 {
            Some(Fault::StackOverflow)
        } else {
            None
        }
    }

    /// The machine after executing `opcode`, given that its program counter
    /// already points past the instruction: halted on a fault, changed by
    /// the instruction otherwise.
    pub open spec fn executed(self, opcode: u16, random: u8) -> State {
        if self.fault_of(opcode) is Some {
            self.halted()
        } else {
            self.effect(decode_spec(opcode), random)
        }
    }

    /// What executing `opcode` reports.
    pub open spec fn execute_result(self, opcode: u16) -> Result<(), Fault> {
        match self.fault_of(opcode) {
            Some(f) => Err(f),
            None => Ok(()),
        }
    }

    // ----- the cycle ---------------------------------------------------

    /// The instruction word at the program counter, high byte first.
    pub open spec fn fetch(self) -> u16 {
        (self.memory[self.pc as int] * 256 + self.byte_at(self.pc + 1)) as u16
    }

    /// Key `k` is down now and was up when the wait last looked.
    pub open spec fn key_edge(self, k: int) -> bool {
        self.keys[k] && !self.latch[k]
    }

    /// The lowest key at or above `from` that shows an edge, or 16.
    pub open spec fn first_edge(self, from: int) -> int
        decreases 16 - from,
    {
        if from >= 16 {
            16
        } else if self.key_edge(from) {
            from
        } else {
            self.first_edge(from + 1)
        }
    }

    /// One look of a pending key wait for register `x`: on an edge the key
    /// goes to the register, the program counter moves past the waiting
    /// instruction and the machine runs again. Either way the key levels
    /// are remembered for the next look.
    pub open spec fn polled(self, x: u8) -> State {
        let k = self.first_edge(0);
        if k < 16 {
            State {
                registers: self.registers.update(x as int, k as u8),
                pc: wrap_address(self.pc + 2),
                status: Status::Running,
                latch: self.keys,
                ..self
            }
        } else {
            State { latch: self.keys, ..self }
        }
    }

    /// The program counter moved past the instruction it points at.
    pub open spec fn advanced(self) -> State {
        State { pc: wrap_address(self.pc + 2), ..self }
    }

    /// The machine after one cycle.
    pub open spec fn cycled(self, random: u8) -> State {
        match self.status {
            Status::Halted => self,
            Status::AwaitingKey(x) => self.polled(x),
            Status::Running => self.advanced().executed(self.fetch(), random),
        }
    }

    /// What one cycle reports.
    pub open spec fn cycle_result(self) -> Result<CycleEvent, Fault> {
        match self.status {
            Status::Halted => Ok(CycleEvent::Halted),
            Status::AwaitingKey(_) => if self.first_edge(0) < 16 {
                Ok(CycleEvent::Continued)
            } else {
                Ok(CycleEvent::AwaitingKey)
            },
            Status::Running => match self.advanced().fault_of(self.fetch()) {
                Some(f) => Err(f),
                None => if is_key_wait(decode_spec(self.fetch())) {
                    Ok(CycleEvent::AwaitingKey)
                } else {
                    Ok(CycleEvent::Continued)
                },
            },
        }
    }

    /// Whether the next cycle consumes a random byte.
    pub open spec fn wants_random(self) -> bool {
        self.status == Status::Running && decode_spec(self.fetch()).op == 0xC
    }
}

/// The flag a subtraction leaves, given whether it needed no borrow.
pub open spec fn borrow_flag(quirks: Quirks, no_borrow: bool) -> u8 {
    if no_borrow != quirks.borrow_sets_flag {
        1
    } else {
        0
    }
}

/// The value that `8xyN` leaves in `Vx`, for `N` in `0..=7` or `0xE`.
pub open spec fn alu_value(n: u8, vx: u8, vy: u8) -> u8 {
    if n == 0 {
        vy
    } else if n == 1 {
        vx | vy
    } else if n == 2 {
        vx & vy
    } else if n == 3 {
        vx ^ vy
    } else if n == 4 {
        ((vx + vy) % 256) as u8
    } else if n == 5 {
        ((vx - vy) % 256) as u8
    } else if n == 6 {
        vx / 2
    } else if n == 7 {
        ((vy - vx) % 256) as u8
    } else {
        ((vx * 2) % 256) as u8
    }
}

/// The value that `8xyN` leaves in the flag register, if it writes one:
/// the carry of an addition, the bit shifted out, or the borrow flag.
pub open spec fn alu_flag(quirks: Quirks, n: u8, vx: u8, vy: u8) -> Option<u8> {
    if n <= 3 {
        None
    } else if n == 4 {
        Some(
            if vx + vy > 255 {
                1u8
            } else {
                0u8
            },
        )
    } else if n == 5 {
        Some(borrow_flag(quirks, vx >= vy))
    } else if n == 6 {
        Some(vx % 2)
    } else if n == 7 {
        Some(borrow_flag(quirks, vy >= vx))
    } else {
        Some(vx / 128)
    }
}

/// Whether `d` is the instruction that waits for a key.
pub open spec fn is_key_wait(d: Instruction) -> bool {
    d.op == 0xF && d.kk == 0x0A
}

/// Whether the fields `d` encode an instruction of the machine.
pub open spec fn defined(d: Instruction) -> bool {
    if d.op == 0x0 {
        d.nnn == 0x0E0 || d.nnn == 0x0EE
    } else if d.op == 0x5 || d.op == 0x9 {
        d.n == 0
    } else if d.op == 0x8 {
        d.n <= 7 || d.n == 0xE
    } else if d.op == 0xE {
        d.kk == 0x9E || d.kk == 0xA1
    } else if d.op == 0xF {
        d.kk == 0x07 || d.kk == 0x0A || d.kk == 0x15 || d.kk == 0x18 || d.kk == 0x1E || d.kk
            == 0x29 || d.kk == 0x33 || d.kk == 0x55 || d.kk == 0x65
    } else {
        true
    }
}

} // verus!

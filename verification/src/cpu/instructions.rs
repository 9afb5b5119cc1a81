use vstd::prelude::*;
use crate::cpu::CPU;
use crate::decode::{decode, decode_spec, Instruction};
use crate::font::GLYPH_SIZE;
use crate::model::{blank_display, wrap_address, State};
use crate::random::random_byte;
use crate::types::{Fault, Quirks, Status, FONT_BASE};

verus! {

impl CPU {
    /// Executes `opcode`, drawing a random byte when the instruction asks
    /// for one. The program counter must already point past the
    /// instruction, and the status is not consulted: that is the cycle's
    /// business. A fault halts the machine and is returned.
    ///
    /// For every instruction but the random one the outcome is fixed by
    /// the machine and the word; for the random one it is the outcome of
    /// `execute` for some byte.
    pub fn parse_opcode(&mut self, opcode: u16) -> (res: Result<(), Fault>)
        requires
            old(self).wf(),
        ensures
            final(self).wf(),
            res == old(self)@.execute_result(opcode),
            decode_spec(opcode).op != 0xC ==> final(self)@ == old(self)@.executed(opcode, 0),
            exists|random: u8| final(self)@ == #[trigger] old(self)@.executed(opcode, random),
    {
        let random = if decode(opcode).op == 0xC {
            random_byte()
        } else {
            0
        };
        self.execute(opcode, random)
    }

    /// Executes `opcode` with `random` as the byte that the random
    /// instruction takes; every other instruction ignores it. The program
    /// counter must already point past the instruction, and the status is
    /// not consulted. A fault halts the machine and is returned.
    pub fn execute(&mut self, opcode: u16, random: u8) -> (res: Result<(), Fault>)
        requires
            old(self).wf(),
        ensures
            final(self).wf(),
            final(self)@ == old(self)@.executed(opcode, random),
            res == old(self)@.execute_result(opcode),
    {
        let d = decode(opcode);
        let x = d.x as usize;
        let y = d.y as usize;
        match d.op {
            0x0 => {
                if d.nnn == 0x0E0 {
                    self.display = [[0u8; 64]; 32];
                    assert(self@.display =~~= blank_display());
                } else if d.nnn == 0x0EE {
                    if self.sp == 0 {
                        self.status = Status::Halted;
                        return Err(Fault::StackUnderflow);
                    }
                    self.sp -= 1;
                    self.pc = self.stack[self.sp as usize];
                } else {
                    return self.unknown(opcode);
                }
            },
            0x1 => {
                self.pc = d.nnn;
            },
            0x2 => {
                if self.sp >= 16 {
                    self.status = Status::Halted;
                    return Err(Fault::StackOverflow);
                }
                self.stack[self.sp as usize] = self.pc;
                self.sp += 1;
                self.pc = d.nnn;
            },
            0x3 => {
                if self.registers[x] == d.kk {
                    self.skip();
                }
            },
            0x4 => {
                if self.registers[x] != d.kk {
                    self.skip();
                }
            },
            0x5 => {
                if d.n != 0 {
                    return self.unknown(opcode);
                }
                if self.registers[x] == self.registers[y] {
                    self.skip();
                }
            },
            0x6 => {
                self.registers[x] = d.kk;
            },
            0x7 => {
                self.registers[x] = self.registers[x].wrapping_add(d.kk);
            },
            0x8 => {
                if d.n > 7 && d.n != 0xE {
                    return self.unknown(opcode);
                }
                self.alu(d);
            },
            0x9 => {
                if d.n != 0 {
                    return self.unknown(opcode);
                }
                if self.registers[x] != self.registers[y] {
                    self.skip();
                }
            },
            0xA => {
                self.index = d.nnn;
            },
            0xB => {
                self.pc = (self.registers[0] as u16 + d.nnn) % 4096;
            },
            0xC => {
                self.registers[x] = random & d.kk;
            },
            0xD => {
                self.draw(opcode);
            },
            0xE => {
                let down = self.keys[(self.registers[x] % 16) as usize];
                if d.kk == 0x9E {
                    if down {
                        self.skip();
                    }
                } else if d.kk == 0xA1 {
                    if !down {
                        self.skip();
                    }
                } else {
                    return self.unknown(opcode);
                }
            },
            _ => {
                if !(d.kk == 0x07 || d.kk == 0x0A || d.kk == 0x15 || d.kk == 0x18 || d.kk == 0x1E
                    || d.kk == 0x29 || d.kk == 0x33 || d.kk == 0x55 || d.kk == 0x65) {
                    return self.unknown(opcode);
                }
                self.misc(d);
            },
        }
        Ok(())
    }

    /// Halts the machine on an instruction word that encodes nothing.
    fn unknown(&mut self, opcode: u16) -> (res: Result<(), Fault>)
        requires
            old(self).wf(),
        ensures
            final(self).wf(),
            final(self)@ == old(self)@.halted(),
            res == Err::<(), Fault>(
                (Fault::UnknownOpcode {
                    instruction: opcode,
                    pc: wrap_address(old(self)@.pc + 4094),
                }),
            ),
    {
        self.status = Status::Halted;
        Err(Fault::UnknownOpcode { instruction: opcode, pc: (self.pc + 4094) % 4096 })
    }

    /// Moves the program counter past one more instruction.
    fn skip(&mut self)
        requires
            old(self).wf(),
        ensures
            final(self).wf(),
            final(self)@ == old(self)@.skip_if(true),
    {
        self.pc = (self.pc + 2) % 4096;
    }

    /// The register-to-register family.
    fn alu(&mut self, d: Instruction)
        requires
            old(self).wf(),
            d.x < 16,
            d.y < 16,
            d.n <= 7 || d.n == 0xE,
        ensures
            final(self).wf(),
            final(self)@ == old(self)@.alu(d),
    {
        let x = d.x as usize;
        let vx = self.registers[x];
        let vy = self.registers[d.y as usize];
        let flag = alu_flag(self.quirks, d.n, vx, vy);
        self.registers[x] = alu_value(d.n, vx, vy);
        match flag {
            Some(f) => {
                self.registers[0xF] = f;
            },
            None => {},
        }
    }

    /// The timer, keypad-wait, index and memory family.
    fn misc(&mut self, d: Instruction)
        requires
            old(self).wf(),
            d.x < 16,
            d.kk == 0x07 || d.kk == 0x0A || d.kk == 0x15 || d.kk == 0x18 || d.kk == 0x1E || d.kk
                == 0x29 || d.kk == 0x33 || d.kk == 0x55 || d.kk == 0x65,
        ensures
            final(self).wf(),
            final(self)@ == old(self)@.misc(d),
    {
        let x = d.x as usize;
        let vx = self.registers[x];
        match d.kk {
            0x07 => {
                self.registers[x] = self.delay_timer;
            },
            0x0A => {
                self.status = Status::AwaitingKey(d.x);
                self.pc = (self.pc + 4094) % 4096;
                self.latch = self.keys;
            },
            0x15 => {
                self.delay_timer = vx;
            },
            0x18 => {
                self.sound_timer = vx;
            },
            0x1E => {
                let sum = self.index + vx as u16;
                self.index = sum % 4096;
                if self.quirks.index_overflow_flag {
                    self.registers[0xF] = if sum > 4095 {
                        1
                    } else {
                        0
                    };
                }
            },
            0x29 => {
                self.index = FONT_BASE + GLYPH_SIZE * (vx as u16);
            },
            0x33 => {
                let i = self.index as usize;
                self.memory[i] = vx / 100;
                self.memory[(i + 1) % 4096] = (vx / 10) % 10;
                self.memory[(i + 2) % 4096] = vx % 10;
            },
            0x55 => {
                self.store_registers(d.x);
            },
            _ => {
                self.load_registers(d.x);
            },
        }
    }

    /// Copies registers `0..=x` to memory from the index register on.
    fn store_registers(&mut self, x: u8)
        requires
            old(self).wf(),
            x < 16,
        ensures
            final(self).wf(),
            final(self)@ == old(self)@.stored(x),
    {
        let base = self.index as usize;
        let mut k: usize = 0;
        while k <= x as usize
            invariant
                k <= x + 1,
                x < 16,
                base == old(self).index,
                base < 4096,
                self@ == (State { memory: self@.memory, ..old(self)@ }),
                forall|a: int|
                    0 <= a < 4096 ==> self.memory[a] == (if (a - base) % 4096 < k {
                        old(self).registers[(a - base) % 4096]
                    } else {
                        old(self).memory[a]
                    }),
            decreases x + 1 - k,
        {
            self.memory[(base + k) % 4096] = self.registers[k];
            k += 1;
        }
        if self.quirks.advance_index {
            self.index = (self.index + x as u16 + 1) % 4096;
        }
        proof {
            assert(self@.memory =~= old(self)@.stored(x).memory);
        }
    }

    /// Fills registers `0..=x` from memory from the index register on.
    fn load_registers(&mut self, x: u8)
        requires
            old(self).wf(),
            x < 16,
        ensures
            final(self).wf(),
            final(self)@ == old(self)@.fetched(x),
    {
        let base = self.index as usize;
        let mut k: usize = 0;
        while k <= x as usize
            invariant
                k <= x + 1,
                x < 16,
                base == old(self).index,
                base < 4096,
                self@ == (State { registers: self@.registers, ..old(self)@ }),
                forall|j: int|
                    0 <= j < 16 ==> self.registers[j] == (if j < k {
                        old(self).memory[(base + j) % 4096]
                    } else {
                        old(self).registers[j]
                    }),
            decreases x + 1 - k,
        {
            self.registers[k] = self.memory[(base + k) % 4096];
            k += 1;
        }
        if self.quirks.advance_index {
            self.index = (self.index + x as u16 + 1) % 4096;
        }
        proof {
            assert(self@.registers =~= old(self)@.fetched(x).registers);
        }
    }

    /// Flips the pixel at row `y`, column `x`, raising the flag register if
    /// the pixel was on.
    fn plot(&mut self, y: usize, x: usize)
        requires
            old(self).wf(),
            y < 32,
            x < 64,
        ensures
            plotted(old(self)@, final(self)@, Some((y as int, x as int))),
            final(self)@ == (State {
                registers: final(self)@.registers,
                display: final(self)@.display,
                ..old(self)@
            }),
    {
        if self.display[y][x] == 1 {
            self.registers[0xF] = 1;
        }
        self.display[y][x] ^= 1;
    }

    /// Draws the sprite that `opcode` names. Only the three low fields of
    /// `opcode` are read: the registers that hold the origin, and the
    /// number of rows.
    pub fn draw(&mut self, opcode: u16)
        requires
            old(self).wf(),
        ensures
            final(self).wf(),
            final(self)@ == old(self)@.drawn(decode_spec(opcode)),
    {
        let d = decode(opcode);
        let x0 = (self.registers[d.x as usize] % 64) as usize;
        let y0 = (self.registers[d.y as usize] % 32) as usize;
        let wrap = self.quirks.wrap_sprites;
        let ghost s0 = self@;
        self.registers[0xF] = 0;
        let mut yline: u8 = 0;
        while yline < d.n
            invariant
                s0 == old(self)@,
                s0.wf(),
                d == decode_spec(opcode),
                d.x < 16 && d.y < 16 && d.n < 16,
                yline <= d.n,
                x0 == s0.registers[d.x as int] % 64,
                y0 == s0.registers[d.y as int] % 32,
                wrap == s0.quirks.wrap_sprites,
                self@ == (State { registers: self@.registers, display: self@.display, ..s0 }),
                partly_drawn(s0, d, self@, 8 * yline),
            decreases d.n - yline,
        {
            let pixel = self.memory[(self.index as usize + yline as usize) % 4096];
            let mut xline: u8 = 0;
            while xline < 8
                invariant
                    s0 == old(self)@,
                    s0.wf(),
                    d == decode_spec(opcode),
                    d.x < 16 && d.y < 16 && d.n < 16,
                    yline < d.n,
                    xline <= 8,
                    x0 == s0.registers[d.x as int] % 64,
                    y0 == s0.registers[d.y as int] % 32,
                    wrap == s0.quirks.wrap_sprites,
                    pixel == s0.byte_at(s0.index + yline),
                    self@ == (State { registers: self@.registers, display: self@.display, ..s0 }),
                    partly_drawn(s0, d, self@, 8 * yline + xline),
                decreases 8 - xline,
            {
                let ghost before = self@;
                if pixel & (0x80u8 >> xline) != 0 {
                    let ia = if wrap {
                        (y0 + yline as usize) % 32
                    } else {
                        y0 + yline as usize
                    };
                    let ib = if wrap {
                        (x0 + xline as usize) % 64
                    } else {
                        x0 + xline as usize
                    };
                    if ia < 32 && ib < 64 {
                        self.plot(ia, ib);
                    }
                }
                proof {
                    lemma_draw_step(s0, d, before, self@, yline as int, xline as int);
                }
                xline += 1;
            }
            yline += 1;
        }
        self.draw_flag = true;
        proof {
            lemma_draw_done(s0, d);
            assert(self@.display =~~= s0.drawn(d).display);
            assert(self@.registers =~= s0.drawn(d).registers);
        }
    }
}

/// Position of the sprite cell that lands on pixel (`r`, `c`), counting
/// the cells row by row.
spec fn cell_index(s: State, d: Instruction, r: int, c: int) -> int {
    8 * s.sprite_offset(s.registers[d.y as int] as int % 32, r, 32) + s.sprite_offset(
        s.registers[d.x as int] as int % 64,
        c,
        64,
    )
}

/// The pixel is flipped by one of the first `k` sprite cells.
spec fn toggles_before(s: State, d: Instruction, r: int, c: int, k: int) -> bool {
    s.toggles(d, r, c) && cell_index(s, d, r, c) < k
}

/// One of the first `k` sprite cells flips a pixel that is on.
spec fn collides_before(s: State, d: Instruction, k: int) -> bool {
    exists|r: int, c: int|
        0 <= r < 32 && 0 <= c < 64 && #[trigger] toggles_before(s, d, r, c, k) && s.display[r][c]
            == 1
}

/// `now` is `s` with the first `k` cells of the sprite drawn.
spec fn partly_drawn(s: State, d: Instruction, now: State, k: int) -> bool {
    &&& now.registers.len() == 16
    &&& forall|j: int| 0 <= j < 15 ==> now.registers[j] == s.registers[j]
    &&& now.registers[15] == (if collides_before(s, d, k) {
        1u8
    } else {
        0u8
    })
    &&& now.display.len() == 32
    &&& forall|r: int| 0 <= r < 32 ==> (#[trigger] now.display[r]).len() == 64
    &&& forall|r: int, c: int|
        0 <= r < 32 && 0 <= c < 64 ==> #[trigger] now.display[r][c] == (if toggles_before(
            s,
            d,
            r,
            c,
            k,
        ) {
            s.display[r][c] ^ 1
        } else {
            s.display[r][c]
        }) && now.display[r][c] <= 1
}

/// The pixel on which sprite cell (`row`, `col`) lands, if it lands on
/// the frame at all.
spec fn landing(s: State, d: Instruction, row: int, col: int) -> Option<(int, int)> {
    let y = s.registers[d.y as int] as int % 32 + row;
    let x = s.registers[d.x as int] as int % 64 + col;
    if s.quirks.wrap_sprites {
        Some((y % 32, x % 64))
    } else if y < 32 && x < 64 {
        Some((y, x))
    } else {
        None
    }
}

/// `after` is `before` with the pixel at `target`, if any, flipped, and the
/// flag register raised if that pixel was on.
spec fn plotted(before: State, after: State, target: Option<(int, int)>) -> bool {
    &&& after.registers.len() == 16
    &&& after.display.len() == 32
    &&& forall|r: int| 0 <= r < 32 ==> (#[trigger] after.display[r]).len() == 64
    &&& forall|j: int| 0 <= j < 15 ==> after.registers[j] == before.registers[j]
    &&& match target {
        Some((y, x)) => {
            &&& after.registers[15] == (if before.display[y][x] == 1 {
                1u8
            } else {
                before.registers[15]
            })
            &&& forall|r: int, c: int|
                0 <= r < 32 && 0 <= c < 64 ==> #[trigger] after.display[r][c] == (if r == y && c
                    == x {
                    before.display[r][c] ^ 1
                } else {
                    before.display[r][c]
                })
        },
        None => {
            &&& after.registers[15] == before.registers[15]
            &&& forall|r: int, c: int|
                0 <= r < 32 && 0 <= c < 64 ==> #[trigger] after.display[r][c]
                    == before.display[r][c]
        },
    }
}

/// The pixel that sprite cell (`row`, `col`) flips, if any.
spec fn target(s: State, d: Instruction, row: int, col: int) -> Option<(int, int)> {
    if s.sprite_bit(row, col) {
        landing(s, d, row, col)
    } else {
        None
    }
}

/// Drawing sprite cell (`row`, `col`) on top of the cells before it gives
/// the cells up to and including it.
proof fn lemma_draw_step(
    s: State,
    d: Instruction,
    before: State,
    after: State,
    row: int,
    col: int,
)
    requires
        s.wf(),
        d.x < 16 && d.y < 16 && d.n < 16,
        0 <= row < d.n,
        0 <= col < 8,
        partly_drawn(s, d, before, 8 * row + col),
        plotted(before, after, target(s, d, row, col)),
    ensures
        partly_drawn(s, d, after, 8 * row + col + 1),
{
    let k = 8 * row + col;
    let t = target(s, d, row, col);
    assert forall|r: int, c: int| 0 <= r < 32 && 0 <= c < 64 implies #[trigger] after.display[r][c]
        == (if toggles_before(s, d, r, c, k + 1) {
        s.display[r][c] ^ 1
    } else {
        s.display[r][c]
    }) && after.display[r][c] <= 1 by {
        lemma_cell(s, d, row, col, r, c);
        let v = s.display[r][c];
        assert(v <= 1 ==> v ^ 1 <= 1) by (bit_vector);
    }
    if collides_before(s, d, k + 1) {
        let (r, c) = choose|r: int, c: int|
            0 <= r < 32 && 0 <= c < 64 && #[trigger] toggles_before(s, d, r, c, k + 1)
                && s.display[r][c] == 1;
        lemma_cell(s, d, row, col, r, c);
        if toggles_before(s, d, r, c, k) {
            assert(collides_before(s, d, k));
        } else {
            assert(t == Some((r, c)));
            assert(before.display[r][c] == 1);
        }
        assert(after.registers[15] == 1);
    } else {
        if collides_before(s, d, k) {
            let (r, c) = choose|r: int, c: int|
                0 <= r < 32 && 0 <= c < 64 && #[trigger] toggles_before(s, d, r, c, k)
                    && s.display[r][c] == 1;
            lemma_cell(s, d, row, col, r, c);
            assert(toggles_before(s, d, r, c, k + 1));
        }
        match t {
            Some((y, x)) => {
                lemma_landing_on_frame(s, d, row, col);
                lemma_cell(s, d, row, col, y, x);
                assert(toggles_before(s, d, y, x, k + 1));
                assert(before.display[y][x] == s.display[y][x]);
            },
            None => {},
        }
        assert(after.registers[15] == 0);
    }
}

/// A sprite cell lands inside the frame or not at all.
proof fn lemma_landing_on_frame(s: State, d: Instruction, row: int, col: int)
    requires
        s.wf(),
        d.x < 16 && d.y < 16,
        0 <= row,
        0 <= col,
    ensures
        match landing(s, d, row, col) {
            Some((y, x)) => 0 <= y < 32 && 0 <= x < 64,
            None => true,
        },
{
}

/// On an axis of `m` pixels, `at` lies `k` past `origin` modulo `m`
/// exactly when it is `origin + k` reduced modulo `m`.
proof fn lemma_offset(origin: int, at: int, k: int, m: int)
    requires
        m == 32 || m == 64,
        0 <= origin < m,
        0 <= at < m,
        0 <= k < m,
    ensures
        (at - origin) % m == k <==> at == (origin + k) % m,
{
    if origin + k < m {
        assert((origin + k) % m == origin + k);
    } else {
        assert((origin + k) % m == origin + k - m);
    }
    if at >= origin {
        assert((at - origin) % m == at - origin);
    } else {
        assert((at - origin) % m == at - origin + m);
    }
}

/// Pixel (`r`, `c`) is the landing place of sprite cell (`row`, `col`)
/// exactly when the cell is the one that covers it.
proof fn lemma_cell(s: State, d: Instruction, row: int, col: int, r: int, c: int)
    requires
        s.wf(),
        d.x < 16 && d.y < 16 && d.n < 16,
        0 <= row < d.n,
        0 <= col < 8,
        0 <= r < 32,
        0 <= c < 64,
    ensures
        toggles_before(s, d, r, c, 8 * row + col + 1) <==> toggles_before(s, d, r, c, 8 * row + col)
            || target(s, d, row, col) == Some((r, c)),
        target(s, d, row, col) == Some((r, c)) ==> !toggles_before(s, d, r, c, 8 * row + col),
{
    let y0 = s.registers[d.y as int] as int % 32;
    let x0 = s.registers[d.x as int] as int % 64;
    let ro = s.sprite_offset(y0, r, 32);
    let co = s.sprite_offset(x0, c, 64);
    lemma_offset(y0, r, row, 32);
    lemma_offset(x0, c, col, 64);
    assert(landing(s, d, row, col) == Some((r, c)) <==> ro == row && co == col);
    if 0 <= co < 8 && 0 <= ro {
        assert(8 * ro + co == 8 * row + col <==> ro == row && co == col);
    }
}

/// Once all `8 * n` cells are drawn, the whole sprite is.
proof fn lemma_draw_done(s: State, d: Instruction)
    requires
        s.wf(),
        d.x < 16 && d.y < 16,
    ensures
        forall|r: int, c: int| #[trigger]
            toggles_before(s, d, r, c, 8 * d.n) <==> s.toggles(d, r, c),
        collides_before(s, d, 8 * d.n) <==> s.collides(d),
{
    assert forall|r: int, c: int| #[trigger]
        toggles_before(s, d, r, c, 8 * d.n) <==> s.toggles(d, r, c) by {}
    if collides_before(s, d, 8 * d.n) {
        let (r, c) = choose|r: int, c: int|
            0 <= r < 32 && 0 <= c < 64 && #[trigger] toggles_before(s, d, r, c, 8 * d.n)
                && s.display[r][c] == 1;
        assert(s.toggles(d, r, c));
    }
    if s.collides(d) {
        let (r, c) = choose|r: int, c: int|
            0 <= r < 32 && 0 <= c < 64 && #[trigger] s.toggles(d, r, c) && s.display[r][c] == 1;
        assert(toggles_before(s, d, r, c, 8 * d.n));
    }
}

/// The value that the register-to-register instruction `n` leaves in its
/// first operand.
fn alu_value(n: u8, vx: u8, vy: u8) -> (v: u8)
    requires
        n <= 7 || n == 0xE,
    ensures
        v == crate::model::alu_value(n, vx, vy),
{
    match n {
        0x0 => vy,
        0x1 => vx | vy,
        0x2 => vx & vy,
        0x3 => vx ^ vy,
        0x4 => vx.wrapping_add(vy),
        0x5 => vx.wrapping_sub(vy),
        0x6 => {
            assert(vx >> 1 == vx / 2) by (bit_vector);
            vx >> 1
        },
        0x7 => vy.wrapping_sub(vx),
        _ => {
            assert(vx << 1 == (vx * 2) % 256) by (bit_vector);
            vx << 1
        },
    }
}

/// The value that the register-to-register instruction `n` leaves in the
/// flag register, if it writes one.
fn alu_flag(quirks: Quirks, n: u8, vx: u8, vy: u8) -> (flag: Option<u8>)
    requires
        n <= 7 || n == 0xE,
    ensures
        flag == crate::model::alu_flag(quirks, n, vx, vy),
{
    match n {
        0x0 | 0x1 | 0x2 | 0x3 => None,
        0x4 => Some(
            if vx as u16 + vy as u16 > 255 {
                1
            } else {
                0
            },
        ),
        0x5 => Some(borrow_flag(quirks, vx >= vy)),
        0x6 => {
            assert(vx & 1 == vx % 2) by (bit_vector);
            Some(vx & 1)
        },
        0x7 => Some(borrow_flag(quirks, vy >= vx)),
        _ => {
            assert(vx >> 7 == vx / 128) by (bit_vector);
            Some(vx >> 7)
        },
    }
}

/// The flag a subtraction leaves, given whether it needed no borrow.
fn borrow_flag(quirks: Quirks, no_borrow: bool) -> (flag: u8)
    ensures
        flag == crate::model::borrow_flag(quirks, no_borrow),
{
    if no_borrow != quirks.borrow_sets_flag {
        1
    } else {
        0
    }
}

} // verus!

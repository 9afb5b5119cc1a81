//! Properties of the machine that relate several instructions or hold of
//! every state, proved from the model.

use vstd::prelude::*;
use crate::decode::decode_spec;
use crate::model::{blank_display, defined, font_seeded, initial, wrap_address, State};
use crate::types::{CycleEvent, Fault, Quirks, Status};

verus! {

/// The word that encodes family `op` with register field `x` and low
/// byte `kk`.
pub open spec fn encode_xkk(op: u8, x: u8, kk: u8) -> u16 {
    (op * 4096 + x * 256 + kk) as u16
}

/// The word that encodes family `op` with address `nnn`.
pub open spec fn encode_nnn(op: u8, nnn: u16) -> u16 {
    (op * 4096 + nnn) as u16
}

/// `opcode` executed `n` times in a row, with `random` as the random byte.
pub open spec fn repeated(s: State, opcode: u16, random: u8, n: nat) -> State
    decreases n,
{
    if n == 0 {
        s
    } else {
        repeated(s, opcode, random, (n - 1) as nat).executed(opcode, random)
    }
}

/// Executing an instruction keeps a well-formed machine well-formed.
pub proof fn lemma_executed_wf(s: State, opcode: u16, random: u8)
    requires
        s.wf(),
    ensures
        s.executed(opcode, random).wf(),
{
    let d = decode_spec(opcode);
    let t = s.executed(opcode, random);
    if s.fault_of(opcode) is None && d.op == 0xD {
        assert forall|r: int, c: int| 0 <= r < 32 && 0 <= c < 64 implies #[trigger] t.display[r][c]
            <= 1 by {
            let v = s.display[r][c];
            assert(v <= 1 ==> v ^ 1 <= 1) by (bit_vector);
        }
    }
}

/// A cycle keeps a well-formed machine well-formed: the stack pointer
/// stays within `0..=16`, the counters within the address space and every
/// pixel 0 or 1.
pub proof fn lemma_cycled_wf(s: State, random: u8)
    requires
        s.wf(),
    ensures
        s.cycled(random).wf(),
{
    if s.status == Status::Running {
        lemma_executed_wf(s.advanced(), s.fetch(), random);
    }
}

/// The fields of a word built from a family, a register and a low byte.
pub proof fn lemma_decode_xkk(op: u8, x: u8, kk: u8)
    requires
        op < 16,
        x < 16,
    ensures
        decode_spec(encode_xkk(op, x, kk)).op == op,
        decode_spec(encode_xkk(op, x, kk)).x == x,
        decode_spec(encode_xkk(op, x, kk)).kk == kk,
        decode_spec(encode_xkk(op, x, kk)).y == kk / 16,
        decode_spec(encode_xkk(op, x, kk)).n == kk % 16,
{
    let w = op * 4096 + x * 256 + kk;
    assert(w / 4096 == op);
    assert(w % 256 == kk);
    assert(w / 256 == op * 16 + x);
    assert(w / 16 == op * 256 + x * 16 + kk / 16);
}

/// The fields of a word built from a family and an address.
pub proof fn lemma_decode_nnn(op: u8, nnn: u16)
    requires
        op < 16,
        nnn < 4096,
    ensures
        decode_spec(encode_nnn(op, nnn)).op == op,
        decode_spec(encode_nnn(op, nnn)).nnn == nnn,
{
    let w = op * 4096 + nnn;
    assert(w / 4096 == op);
    assert(w % 4096 == nnn);
}

/// What the bulk store and the bulk load do, as words.
pub proof fn lemma_bulk_words(s: State, x: u8, random: u8)
    requires
        s.wf(),
        x < 16,
    ensures
        s.fault_of(encode_xkk(0xF, x, 0x55)) is None,
        s.fault_of(encode_xkk(0xF, x, 0x65)) is None,
        s.executed(encode_xkk(0xF, x, 0x55), random) == s.stored(x),
        s.executed(encode_xkk(0xF, x, 0x65), random) == s.fetched(x),
{
    lemma_decode_xkk(0xF, x, 0x55);
    lemma_decode_xkk(0xF, x, 0x65);
}

/// A load of registers `0..=x` reads back what a store of them wrote at
/// the same index.
pub proof fn lemma_stored_fetched(s: State, mid: State, x: u8)
    requires
        s.wf(),
        x < 16,
        mid.wf(),
        mid.memory == s.stored(x).memory,
        mid.index == s.index,
    ensures
        forall|k: int| 0 <= k <= x ==> #[trigger] mid.fetched(x).registers[k] == s.registers[k],
{
    assert forall|k: int| 0 <= k <= x implies #[trigger] mid.fetched(x).registers[k]
        == s.registers[k] by {
        let a = (s.index + k) % 4096;
        if s.index + k < 4096 {
            assert(a == s.index + k);
            assert((a - s.index) % 4096 == k);
        } else {
            assert(a == s.index + k - 4096);
            assert((a - s.index) % 4096 == k);
        }
        assert(mid.memory[a] == s.registers[k]);
    }
}

/// Storing registers `0..=x` and loading them again from the same index
/// gives back every register, whatever the registers held in between and
/// whether or not the index register advances.
pub proof fn lemma_store_load_round_trip(s: State, mid: State, x: u8, r1: u8, r2: u8)
    requires
        s.wf(),
        x < 16,
        mid.wf(),
        mid.memory == s.executed(encode_xkk(0xF, x, 0x55), r1).memory,
        mid.index == s.index,
    ensures
        s.fault_of(encode_xkk(0xF, x, 0x55)) is None,
        mid.fault_of(encode_xkk(0xF, x, 0x65)) is None,
        forall|k: int|
            0 <= k <= x ==> #[trigger] mid.executed(encode_xkk(0xF, x, 0x65), r2).registers[k]
                == s.registers[k],
        mid.registers == s.registers ==> mid.executed(encode_xkk(0xF, x, 0x65), r2).registers
            == s.registers,
{
    lemma_bulk_words(s, x, r1);
    lemma_bulk_words(mid, x, r2);
    lemma_stored_fetched(s, mid, x);
    if mid.registers == s.registers {
        assert(mid.fetched(x).registers =~= s.registers);
    }
}

/// Drawing the same sprite twice at the same origin restores the frame
/// buffer, and the second draw reports a collision exactly when the first
/// one lit a pixel.
pub proof fn lemma_draw_twice(s: State, opcode: u16, r1: u8, r2: u8)
    requires
        s.wf(),
        decode_spec(opcode).op == 0xD,
        s.executed(opcode, r1).registers[decode_spec(opcode).x as int] % 64
            == s.registers[decode_spec(opcode).x as int] % 64,
        s.executed(opcode, r1).registers[decode_spec(opcode).y as int] % 32
            == s.registers[decode_spec(opcode).y as int] % 32,
    ensures
        s.executed(opcode, r1).executed(opcode, r2).display == s.display,
        s.executed(opcode, r1).executed(opcode, r2).registers[15] == 1 <==> exists|
            r: int,
            c: int,
        |
            0 <= r < 32 && 0 <= c < 64 && #[trigger] s.toggles(decode_spec(opcode), r, c)
                && s.display[r][c] == 0,
        s.executed(opcode, r1).executed(opcode, r2).registers[15] <= 1,
{
    let d = decode_spec(opcode);
    let once = s.executed(opcode, r1);
    let twice = once.executed(opcode, r2);
    assert(once == s.drawn(d));
    assert(twice == once.drawn(d));
    assert forall|r: int, c: int| 0 <= r < 32 && 0 <= c < 64 implies (once.toggles(d, r, c)
        <==> s.toggles(d, r, c)) && #[trigger] twice.display[r][c] == s.display[r][c] by {
        let v = s.display[r][c];
        assert(v <= 1 ==> (v ^ 1) ^ 1 == v) by (bit_vector);
    }
    assert(twice.display =~~= s.display);
    if once.collides(d) {
        let (r, c) = choose|r: int, c: int|
            0 <= r < 32 && 0 <= c < 64 && #[trigger] once.toggles(d, r, c) && once.display[r][c]
                == 1;
        let v = s.display[r][c];
        assert(v <= 1 && v ^ 1 == 1 ==> v == 0) by (bit_vector);
        assert(s.toggles(d, r, c) && s.display[r][c] == 0);
    }
    if exists|r: int, c: int|
        0 <= r < 32 && 0 <= c < 64 && #[trigger] s.toggles(d, r, c) && s.display[r][c] == 0 {
        let (r, c) = choose|r: int, c: int|
            0 <= r < 32 && 0 <= c < 64 && #[trigger] s.toggles(d, r, c) && s.display[r][c] == 0;
        assert(0u8 ^ 1 == 1) by (bit_vector);
        assert(once.toggles(d, r, c) && once.display[r][c] == 1);
    }
}

/// On a blank frame, drawing a sprite twice at the same origin leaves the
/// frame blank, and the second draw reports a collision exactly when the
/// sprite has a set bit that lands on the frame.
pub proof fn lemma_draw_twice_on_blank(s: State, opcode: u16, r1: u8, r2: u8)
    requires
        s.wf(),
        s.display == blank_display(),
        decode_spec(opcode).op == 0xD,
        s.executed(opcode, r1).registers[decode_spec(opcode).x as int] % 64
            == s.registers[decode_spec(opcode).x as int] % 64,
        s.executed(opcode, r1).registers[decode_spec(opcode).y as int] % 32
            == s.registers[decode_spec(opcode).y as int] % 32,
    ensures
        s.executed(opcode, r1).executed(opcode, r2).display == blank_display(),
        s.executed(opcode, r1).executed(opcode, r2).registers[15] == 1 <==> exists|
            r: int,
            c: int,
        |
            0 <= r < 32 && 0 <= c < 64 && #[trigger] s.toggles(decode_spec(opcode), r, c),
{
    lemma_draw_twice(s, opcode, r1, r2);
    let d = decode_spec(opcode);
    if exists|r: int, c: int| 0 <= r < 32 && 0 <= c < 64 && #[trigger] s.toggles(d, r, c) {
        let (r, c) = choose|r: int, c: int|
            0 <= r < 32 && 0 <= c < 64 && #[trigger] s.toggles(d, r, c);
        assert(s.toggles(d, r, c) && s.display[r][c] == 0);
    }
}

/// A new machine holds the glyph table, and a load leaves it in place.
pub proof fn lemma_font_kept(quirks: Quirks, s: State, rom: Seq<u8>)
    requires
        s.wf(),
        rom.len() <= 3584,
    ensures
        font_seeded(initial(quirks).memory),
        font_seeded(s.memory) ==> font_seeded(s.loaded(rom).memory),
        forall|a: int| 0 <= a < 0x200 ==> s.loaded(rom).memory[a] == s.memory[a],
{
}

/// Only the bulk store and the decimal store write to memory; every
/// other instruction, and every fault, leaves all 4096 bytes as they were.
pub proof fn lemma_memory_writers(s: State, opcode: u16, random: u8)
    requires
        s.wf(),
    ensures
        decode_spec(opcode).op != 0xF || (decode_spec(opcode).kk != 0x33 && decode_spec(opcode).kk
            != 0x55) ==> s.executed(opcode, random).memory == s.memory,
{
}

/// Every word of the `F` family either is one of the nine instructions of
/// the family and raises no fault, or halts the machine with
/// `UnknownOpcode` and changes nothing else.
pub proof fn lemma_f_dispatch_total(s: State, opcode: u16, random: u8)
    requires
        s.wf(),
        decode_spec(opcode).op == 0xF,
    ensures
        ({
            let kk = decode_spec(opcode).kk;
            if kk == 0x07 || kk == 0x0A || kk == 0x15 || kk == 0x18 || kk == 0x1E || kk == 0x29
                || kk == 0x33 || kk == 0x55 || kk == 0x65 {
                &&& s.fault_of(opcode) is None
                &&& s.executed(opcode, random) == s.misc(decode_spec(opcode))
            } else {
                &&& s.fault_of(opcode) == Some(
                    Fault::UnknownOpcode {
                        instruction: opcode,
                        pc: wrap_address(s.pc + 4094),
                    },
                )
                &&& s.executed(opcode, random) == s.halted()
            }
        }),
{
}

/// Every word either encodes an instruction or raises `UnknownOpcode`;
/// the stack faults are the only other faults, and they come exactly from
/// a return on an empty stack and a call on a full one.
pub proof fn lemma_faults(s: State, opcode: u16)
    requires
        s.wf(),
    ensures
        s.fault_of(opcode) is Some <==> !defined(decode_spec(opcode)) || (opcode
            == 0x00EE && s.sp == 0) || (decode_spec(opcode).op == 0x2 && s.sp == 16),
        s.fault_of(opcode) == Some(Fault::StackUnderflow) <==> opcode == 0x00EE && s.sp == 0,
        s.fault_of(opcode) == Some(Fault::StackOverflow) <==> decode_spec(opcode).op == 0x2 && s.sp
            == 16,
{
}

/// After `n` ticks a timer that held `t` holds `t - n`, or 0 once `n`
/// reaches `t`; nothing else changes.
pub proof fn lemma_ticks(s: State, n: nat)
    ensures
        s.ticked_times(n).delay_timer == (if s.delay_timer >= n {
            s.delay_timer - n
        } else {
            0
        }),
        s.ticked_times(n).sound_timer == (if s.sound_timer >= n {
            s.sound_timer - n
        } else {
            0
        }),
        s.ticked_times(n) == (State {
            delay_timer: s.ticked_times(n).delay_timer,
            sound_timer: s.ticked_times(n).sound_timer,
            ..s
        }),
    decreases n,
{
    if n > 0 {
        lemma_ticks(s.ticked(), (n - 1) as nat);
    }
}

/// A call followed at once by a return restores the program counter and
/// the stack pointer; only the stack slot that held the return address
/// may differ.
pub proof fn lemma_call_return(s: State, nnn: u16, r1: u8, r2: u8)
    requires
        s.wf(),
        nnn < 4096,
        s.sp < 16,
    ensures
        s.fault_of(encode_nnn(0x2, nnn)) is None,
        s.executed(encode_nnn(0x2, nnn), r1).pc == nnn,
        s.executed(encode_nnn(0x2, nnn), r1).sp == s.sp + 1,
        s.executed(encode_nnn(0x2, nnn), r1).fault_of(0x00EE) is None,
        s.executed(encode_nnn(0x2, nnn), r1).executed(0x00EE, r2) == (State {
            stack: s.stack.update(s.sp as int, s.pc),
            ..s
        }),
{
    lemma_decode_nnn(0x2, nnn);
}

/// The same over whole cycles: when the program counter points at a call
/// and the call's target holds a return, two cycles leave the counter
/// right after the call and the stack pointer where it was.
pub proof fn lemma_call_return_cycles(s: State, nnn: u16, r1: u8, r2: u8)
    requires
        s.wf(),
        s.status == Status::Running,
        nnn < 4096,
        s.sp < 16,
        s.fetch() == encode_nnn(0x2, nnn),
        s.memory[nnn as int] == 0x00,
        s.byte_at(nnn + 1) == 0xEE,
    ensures
        s.cycle_result() == Ok::<CycleEvent, Fault>(CycleEvent::Continued),
        s.cycled(r1).cycle_result() == Ok::<CycleEvent, Fault>(CycleEvent::Continued),
        s.cycled(r1).cycled(r2).pc == wrap_address(s.pc + 2),
        s.cycled(r1).cycled(r2).sp == s.sp,
{
    lemma_decode_nnn(0x2, nnn);
    lemma_call_return(s.advanced(), nnn, r1, r2);
    let mid = s.cycled(r1);
    assert(mid == s.advanced().executed(encode_nnn(0x2, nnn), r1));
    assert(mid.memory == s.memory);
    assert(mid.fetch() == 0x00EE);
}

/// A cycle moves the program counter by exactly two, unless the
/// instruction is a jump, a call, a return, a skip or a key wait, or
/// raises a fault.
pub proof fn lemma_straight_line(s: State, random: u8)
    requires
        s.wf(),
        s.status == Status::Running,
        s.advanced().fault_of(s.fetch()) is None,
        ({
            let d = decode_spec(s.fetch());
            d.op == 0x6 || d.op == 0x7 || d.op == 0x8 || d.op == 0xA || d.op == 0xC || d.op == 0xD
                || (d.op == 0x0 && d.nnn == 0x0E0) || (d.op == 0xF && d.kk != 0x0A)
        }),
    ensures
        s.cycled(random).pc == wrap_address(s.pc + 2),
        s.cycled(random).status == Status::Running,
        s.cycle_result() == Ok::<CycleEvent, Fault>(CycleEvent::Continued),
{
}

/// Cycles never count the timers down: a cycle changes a timer only by
/// executing the instruction that loads it from a register.
pub proof fn lemma_cycle_keeps_timers(s: State, random: u8)
    requires
        s.wf(),
    ensures
        !(s.status == Status::Running && decode_spec(s.fetch()).op == 0xF && decode_spec(
            s.fetch(),
        ).kk == 0x15) ==> s.cycled(random).delay_timer == s.delay_timer,
        !(s.status == Status::Running && decode_spec(s.fetch()).op == 0xF && decode_spec(
            s.fetch(),
        ).kk == 0x18) ==> s.cycled(random).sound_timer == s.sound_timer,
{
}

/// From an empty stack, sixteen nested calls succeed and leave the machine
/// running with all sixteen slots in use; one more raises `StackOverflow`.
pub proof fn lemma_stack_exhaustion(s: State, nnn: u16, random: u8, n: nat)
    requires
        s.wf(),
        nnn < 4096,
        s.sp == 0,
        n <= 16,
    ensures
        repeated(s, encode_nnn(0x2, nnn), random, n).wf(),
        repeated(s, encode_nnn(0x2, nnn), random, n).sp == n,
        repeated(s, encode_nnn(0x2, nnn), random, n).status == s.status,
        n < 16 ==> repeated(s, encode_nnn(0x2, nnn), random, n).fault_of(encode_nnn(0x2, nnn))
            is None,
        n == 16 ==> repeated(s, encode_nnn(0x2, nnn), random, n).fault_of(encode_nnn(0x2, nnn))
            == Some(Fault::StackOverflow),
    decreases n,
{
    lemma_decode_nnn(0x2, nnn);
    if n > 0 {
        lemma_stack_exhaustion(s, nnn, random, (n - 1) as nat);
        lemma_executed_wf(
            repeated(s, encode_nnn(0x2, nnn), random, (n - 1) as nat),
            encode_nnn(0x2, nnn),
            random,
        );
    }
}

/// The key that ends a wait is the lowest one that is down now and was up
/// at the last look; there is none exactly when no key shows such an edge.
pub proof fn lemma_first_edge(s: State, from: int)
    requires
        0 <= from <= 16,
    ensures
        from <= s.first_edge(from) <= 16,
        s.first_edge(from) < 16 ==> s.key_edge(s.first_edge(from)),
        forall|k: int| from <= k < s.first_edge(from) ==> !s.key_edge(k),
    decreases 16 - from,
{
    if from < 16 && !s.key_edge(from) {
        lemma_first_edge(s, from + 1);
    }
}

/// A machine that waits for a key stays exactly where it is, but for the
/// remembered key levels, until a key goes down; a halted machine never
/// changes.
pub proof fn lemma_suspended(s: State, random: u8)
    requires
        s.wf(),
    ensures
        s.status == Status::Halted ==> s.cycled(random) == s,
        s.status is AwaitingKey && s.first_edge(0) == 16 ==> s.cycled(random) == (State {
            latch: s.keys,
            ..s
        }),
{
}

} // verus!

use vstd::prelude::*;

verus! {

/// The fields of one instruction word.
#[derive(Clone, Copy, Debug, PartialEq, Eq, Structural)]
pub struct Instruction {
    /// Bits 12..16: the instruction family.
    pub op: u8,
    /// Bits 8..12: usually the first register operand.
    pub x: u8,
    /// Bits 4..8: usually the second register operand.
    pub y: u8,
    /// Bits 0..4.
    pub n: u8,
    /// Bits 0..8: an immediate byte.
    pub kk: u8,
    /// Bits 0..12: an address.
    pub nnn: u16,
}

/// The fields of `opcode`, by arithmetic.
pub open spec fn decode_spec(opcode: u16) -> Instruction {
    Instruction {
        op: (opcode / 4096) as u8,
        x: (opcode / 256 % 16) as u8,
        y: (opcode / 16 % 16) as u8,
        n: (opcode % 16) as u8,
        kk: (opcode % 256) as u8,
        nnn: opcode % 4096,
    }
}

/// Splits an instruction word into its fields.
pub fn decode(opcode: u16) -> (d: Instruction)
    ensures
        d == decode_spec(opcode),
        d.op < 16,
        d.x < 16,
        d.y < 16,
        d.n < 16,
        d.nnn < 4096,
{
    assert((opcode & 0xf000) >> 12 == opcode / 4096) by (bit_vector);
    assert((opcode & 0x0f00) >> 8 == opcode / 256 % 16) by (bit_vector);
    assert((opcode & 0x00f0) >> 4 == opcode / 16 % 16) by (bit_vector);
    assert(opcode & 0x000f == opcode % 16) by (bit_vector);
    assert(opcode & 0x00ff == opcode % 256) by (bit_vector);
    assert(opcode & 0x0fff == opcode % 4096) by (bit_vector);
    Instruction {
        op: ((opcode & 0xf000) >> 12) as u8,
        x: ((opcode & 0x0f00) >> 8) as u8,
        y: ((opcode & 0x00f0) >> 4) as u8,
        n: (opcode & 0x000f) as u8,
        kk: (opcode & 0x00ff) as u8,
        nnn: opcode & 0x0fff,
    }
}

} // verus!

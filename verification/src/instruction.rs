//! Instruction words and the operand fields packed into them.
//!
//! An instruction is one 16-bit word. Its four nibbles, from the most
//! significant down, are the class, `x`, `y` and `n`; `nn` is the low byte and
//! `nnn` the low twelve bits.

use vstd::prelude::*;

verus! {

/// The class of an instruction: its most significant nibble.
pub open spec fn op_class(opcode: u16) -> int {
    opcode as int / 0x1000
}

/// The register operand `x`: the second nibble.
pub open spec fn op_x(opcode: u16) -> int {
    (opcode as int / 0x100) % 0x10
}

/// The register operand `y`: the third nibble.
pub open spec fn op_y(opcode: u16) -> int {
    (opcode as int / 0x10) % 0x10
}

/// The operand `n`: the least significant nibble.
pub open spec fn op_n(opcode: u16) -> int {
    opcode as int % 0x10
}

/// The operand `nn`: the low byte.
pub open spec fn op_nn(opcode: u16) -> int {
    opcode as int % 0x100
}

/// The operand `nnn`: the low twelve bits.
pub open spec fn op_nnn(opcode: u16) -> int {
    opcode as int % 0x1000
}

/// The instruction word whose high byte is `hi` and whose low byte is `lo`.
pub open spec fn word_of(hi: u8, lo: u8) -> int {
    hi as int * 0x100 + lo as int
}

/// The operand fields of one instruction word.
#[derive(Clone, Copy, Debug, PartialEq, Eq)]
pub struct Fields {
    pub class: u8,
    pub x: usize,
    pub y: usize,
    pub n: u8,
    pub nn: u8,
    pub nnn: u16,
}

/// Splits an instruction word into its operand fields.
pub fn decode(opcode: u16) -> (fields: Fields)
    ensures
        fields.class == op_class(opcode),
        fields.x == op_x(opcode),
        fields.y == op_y(opcode),
        fields.n == op_n(opcode),
        fields.nn == op_nn(opcode),
        fields.nnn == op_nnn(opcode),
        fields.class < 16,
        fields.x < 16,
        fields.y < 16,
        fields.n < 16,
        fields.nnn < 0x1000,
{
    assert((opcode >> 12) == opcode / 0x1000 && (opcode >> 12) < 16) by (bit_vector);
    assert(((opcode & 0x0F00) >> 8) == (opcode / 0x100) % 0x10) by (bit_vector);
    assert(((opcode & 0x00F0) >> 4) == (opcode / 0x10) % 0x10) by (bit_vector);
    assert((opcode & 0x000F) == opcode % 0x10) by (bit_vector);
    assert((opcode & 0x00FF) == opcode % 0x100) by (bit_vector);
    assert((opcode & 0x0FFF) == opcode % 0x1000) by (bit_vector);
    Fields {
        class: (opcode >> 12) as u8,
        x: ((opcode & 0x0F00) >> 8) as usize,
        y: ((opcode & 0x00F0) >> 4) as usize,
        n: (opcode & 0x000F) as u8,
        nn: (opcode & 0x00FF) as u8,
        nnn: opcode & 0x0FFF,
    }
}

/// Joins two bytes into one instruction word, the first byte being the more
/// significant one.
pub fn join_bytes(hi: u8, lo: u8) -> (word: u16)
    ensures
        word == word_of(hi, lo),
{
    let word = ((hi as u16) << 8) | (lo as u16);
    assert(((hi as u16) << 8) | (lo as u16) == (hi as u16) * 0x100 + (lo as u16)) by (bit_vector);
    word
}

} // verus!

use vstd::prelude::*;
use crate::machine::{op_class, op_kk, op_n, op_nnn, op_x, op_y};

verus! {

/// The family nibble of an instruction word.
pub fn class_of(opcode: u16) -> (class: u8)
    ensures
        class == op_class(opcode),
        class < 16,
{
    assert((opcode >> 12) == opcode / 0x1000 && (opcode >> 12) < 16) by (bit_vector);
    (opcode >> 12) as u8
}

/// The register operand `x` of an instruction word.
pub fn x_of(opcode: u16) -> (x: usize)
    ensures
        x == op_x(opcode),
        x < 16,
{
    assert(((opcode & 0x0F00) >> 8) == (opcode / 0x100) % 16) by (bit_vector);
    ((opcode & 0x0F00) >> 8) as usize
}

/// The register operand `y` of an instruction word.
pub fn y_of(opcode: u16) -> (y: usize)
    ensures
        y == op_y(opcode),
        y < 16,
{
    assert(((opcode & 0x00F0) >> 4) == (opcode / 0x10) % 16) by (bit_vector);
    ((opcode & 0x00F0) >> 4) as usize
}

/// The operand `n` of an instruction word.
pub fn n_of(opcode: u16) -> (n: u8)
    ensures
        n == op_n(opcode),
        n < 16,
{
    assert((opcode & 0x000F) == opcode % 16) by (bit_vector);
    (opcode & 0x000F) as u8
}

/// The immediate operand `kk` of an instruction word.
pub fn kk_of(opcode: u16) -> (kk: u8)
    ensures
        kk == op_kk(opcode),
{
    assert((opcode & 0x00FF) == opcode % 0x100) by (bit_vector);
    (opcode & 0x00FF) as u8
}

/// The address operand `nnn` of an instruction word.
pub fn nnn_of(opcode: u16) -> (nnn: u16)
    ensures
        nnn == op_nnn(opcode),
        nnn < 0x1000,
{
    assert((opcode & 0x0FFF) == opcode % 0x1000) by (bit_vector);
    opcode & 0x0FFF
}

} // verus!

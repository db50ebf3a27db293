use vstd::prelude::*;

verus! {

// The canonical bit-field extractions of a 16-bit opcode word. Every
// contract and every handler speaks of these and of nothing else.

/// High nibble: the instruction family.
pub open spec fn op_family(op: u16) -> u16 {
    (op & 0xF000) >> 12
}

/// Bits 8..=11: a register index.
pub open spec fn op_x(op: u16) -> u16 {
    (op & 0x0F00) >> 8
}

/// Bits 4..=7: a register index.
pub open spec fn op_y(op: u16) -> u16 {
    (op & 0x00F0) >> 4
}

/// Bits 0..=3: a nibble operand.
pub open spec fn op_n(op: u16) -> u16 {
    op & 0x000F
}

/// Bits 0..=7: a byte operand.
pub open spec fn op_kk(op: u16) -> u8 {
    (op & 0x00FF) as u8
}

/// Bits 0..=11: an address operand.
pub open spec fn op_nnn(op: u16) -> u16 {
    op & 0x0FFF
}

/// Each extracted field fits its purpose: nibbles index the sixteen
/// registers, an address stays inside the 4096-byte space.
pub proof fn lemma_field_bounds(op: u16)
    by (bit_vector)
    ensures
        op_family(op) < 16,
        op_x(op) < 16,
        op_y(op) < 16,
        op_n(op) < 16,
        op_nnn(op) < 4096,
{
}

} // verus!

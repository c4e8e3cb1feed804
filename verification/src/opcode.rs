//! The 16-bit instruction word and its addressing fields.

use vstd::prelude::*;

verus! {

/// One fetched instruction word.
#[derive(Clone, Copy, Debug, PartialEq, Eq)]
pub struct Opcode(pub u16);

/// The register index `x`: the second nibble of the word.
pub open spec fn field_x(op: u16) -> int {
    (op as int / 256) % 16
}

/// The register index `y`: the third nibble of the word.
pub open spec fn field_y(op: u16) -> int {
    (op as int / 16) % 16
}

/// The 4-bit immediate `n`: the last nibble of the word.
pub open spec fn field_n(op: u16) -> int {
    op as int % 16
}

/// The 8-bit immediate `nn`: the low byte of the word.
pub open spec fn field_nn(op: u16) -> int {
    op as int % 256
}

/// The 12-bit address `nnn`: the low three nibbles of the word.
pub open spec fn field_nnn(op: u16) -> int {
    op as int % 4096
}

/// The instruction family: the first nibble of the word.
pub open spec fn family(op: u16) -> int {
    op as int / 4096
}

/// Masking and shifting a word picks out the same digits as dividing it
/// by powers of sixteen.
pub proof fn lemma_fields_by_mask(op: u16)
    ensures
        (op >> 8) & 0xF == field_x(op),
        (op & 0x0F00) >> 8 == field_x(op),
        (op >> 4) & 0xF == field_y(op),
        (op & 0x00F0) >> 4 == field_y(op),
        op & 0xF == field_n(op),
        op & 0xFF == field_nn(op),
        op & 0xFFF == field_nnn(op),
        op >> 12 == family(op),
        op & 0xF000 == family(op) * 4096,
{
    assert((op >> 8) & 0xF == (op / 256) % 16) by (bit_vector);
    assert((op & 0x0F00) >> 8 == (op / 256) % 16) by (bit_vector);
    assert((op >> 4) & 0xF == (op / 16) % 16) by (bit_vector);
    assert((op & 0x00F0) >> 4 == (op / 16) % 16) by (bit_vector);
    assert(op & 0xF == op % 16) by (bit_vector);
    assert(op & 0xFF == op % 256) by (bit_vector);
    assert(op & 0xFFF == op % 4096) by (bit_vector);
    assert(op >> 12 == op / 4096) by (bit_vector);
    assert(op & 0xF000 == (op / 4096) * 4096) by (bit_vector);
}

impl Opcode {
    /// `(op >> 8) & 0xF`.
    pub fn x(&self) -> (r: usize)
        ensures
            r == (self.0 >> 8) & 0xF,
            r == field_x(self.0),
            r < 16,
    {
        proof {
            lemma_fields_by_mask(self.0);
        }
        ((self.0 & 0x0F00) >> 8) as usize
    }

    /// `(op >> 4) & 0xF`.
    pub fn y(&self) -> (r: usize)
        ensures
            r == (self.0 >> 4) & 0xF,
            r == field_y(self.0),
            r < 16,
    {
        proof {
            lemma_fields_by_mask(self.0);
        }
        ((self.0 & 0x00F0) >> 4) as usize
    }

    /// `op & 0xF`.
    pub fn n(&self) -> (r: u8)
        ensures
            r == self.0 & 0xF,
            r == field_n(self.0),
            r < 16,
    {
        proof {
            lemma_fields_by_mask(self.0);
        }
        (self.0 & 0x000F) as u8
    }

    /// `op & 0xFF`.
    pub fn nn(&self) -> (r: u8)
        ensures
            r == self.0 & 0xFF,
            r == field_nn(self.0),
    {
        proof {
            lemma_fields_by_mask(self.0);
        }
        (self.0 & 0x00FF) as u8
    }

    /// `op & 0xFFF`.
    pub fn nnn(&self) -> (r: u16)
        ensures
            r == self.0 & 0xFFF,
            r == field_nnn(self.0),
            r < 4096,
    {
        proof {
            lemma_fields_by_mask(self.0);
        }
        self.0 & 0x0FFF
    }
}

} // verus!

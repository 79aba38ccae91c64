//! The storage cell of a register.

use vstd::prelude::*;

verus! {

/// A register's cell: one 16-bit word. The byte view of a register is the low
/// half of the cell, the word view is all of it.
#[derive(Debug, Clone, Copy, PartialEq, Eq, Structural)]
pub struct RegisterValue(pub u16);

/// The cell `cell` with its byte number `idx` replaced by `value`.
pub open spec fn with_byte(cell: u16, idx: u8, value: u8) -> u16 {
    if idx == 0 {
        ((cell / 0x100) * 0x100 + value) as u16
    } else {
        (value * 0x100 + cell % 0x100) as u16
    }
}

/// Byte number `idx` of the cell: 0 is the low half, 1 the high half.
pub open spec fn cell_byte(cell: u16, idx: u8) -> u8 {
    if idx == 0 {
        (cell % 0x100) as u8
    } else {
        (cell / 0x100) as u8
    }
}

/// Replacing the low byte of a cell sets that byte and keeps the other.
pub proof fn lemma_with_low_byte(cell: u16, value: u8)
    ensures
        cell_byte(with_byte(cell, 0, value), 0) == value,
        cell_byte(with_byte(cell, 0, value), 1) == cell_byte(cell, 1),
{
    let high = cell as int / 0x100;
    assert(0 <= high < 0x100);
    let low = value as int;
    let packed = high * 0x100 + low;
    assert(packed / 0x100 == high && packed % 0x100 == low) by (nonlinear_arith)
        requires
            packed == high * 0x100 + low,
            0 <= low,
            low < 0x100,
    ;
}

/// The two bytes of the low word of a value are its two low bytes.
pub proof fn lemma_word_bytes(value: u64)
    ensures
        cell_byte(crate::value::low_word(value), 0) == crate::value::low_byte(value),
        cell_byte(crate::value::low_word(value), 1) == crate::value::high_byte(value),
{
    assert((value % 0x1_0000) % 0x100 == value % 0x100) by (bit_vector);
    assert((value % 0x1_0000) / 0x100 == (value / 0x100) % 0x100) by (bit_vector);
}

impl RegisterValue {
    /// Overwrites one byte of the cell and leaves the other as it is.
    pub fn set_byte(&mut self, idx: u8, value: u8)
        requires
            idx < 2,
        ensures
            final(self).0 == with_byte(old(self).0, idx, value),
            cell_byte(final(self).0, idx) == value,
            cell_byte(final(self).0, (1 - idx) as u8) == cell_byte(old(self).0, (1 - idx) as u8),
    {
        let cell: u16 = self.0;
        if idx == 0 {
            assert((cell & 0xFF00) | (value as u16) == ((cell / 0x100) * 0x100 + value) as u16)
                by (bit_vector);
            self.0 = (cell & 0xFF00) | (value as u16);
        } else {
            assert((cell & 0x00FF) | ((value as u16) << 8) == (value * 0x100 + cell % 0x100) as u16)
                by (bit_vector);
            self.0 = (cell & 0x00FF) | ((value as u16) << 8);
        }
    }

    /// Overwrites the whole cell. A cell holds a single word, number 0.
    pub fn set_word(&mut self, idx: u8, value: u16)
        requires
            idx == 0,
        ensures
            final(self).0 == value,
    {
        self.0 = value;
    }

    /// Reads one byte of the cell.
    pub fn get_byte(&self, idx: u8) -> (b: u8)
        requires
            idx < 2,
        ensures
            b == cell_byte(self.0, idx),
    {
        let cell: u16 = self.0;
        if idx == 0 {
            assert(cell & 0xFF == cell % 0x100) by (bit_vector);
            (cell & 0xFF) as u8
        } else {
            assert(cell >> 8 == cell / 0x100) by (bit_vector);
            (cell >> 8) as u8
        }
    }

    /// Reads the whole cell. A cell holds a single word, number 0.
    pub fn get_word(&self, idx: u8) -> (w: u16)
        requires
            idx == 0,
        ensures
            w == self.0,
    {
        self.0
    }
}

impl From<u16> for RegisterValue {
    fn from(value: u16) -> (r: Self) {
        Self(value)
    }
}

impl vstd::std_specs::convert::FromSpecImpl<u16> for RegisterValue {
    open spec fn obeys_from_spec() -> bool {
        true
    }

    open spec fn from_spec(value: u16) -> Self {
        RegisterValue(value)
    }
}

impl From<RegisterValue> for u16 {
    fn from(value: RegisterValue) -> (r: Self) {
        value.0
    }
}

impl vstd::std_specs::convert::FromSpecImpl<RegisterValue> for u16 {
    open spec fn obeys_from_spec() -> bool {
        true
    }

    open spec fn from_spec(value: RegisterValue) -> Self {
        value.0
    }
}

} // verus!

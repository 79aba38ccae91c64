//! The wire format: how an instruction is laid out in bytes.

use vstd::prelude::*;
use crate::instruction::Instruction;
use crate::value::{high_byte, low_byte, Value, Width};

verus! {

/// First opcode of a pair, or the next one when the operand is a word wide.
pub open spec fn paired_opcode(start: u8, width: Width) -> u8 {
    match width {
        Width::Byte => start,
        Width::Word => (start + 1) as u8,
    }
}

impl Instruction {
    /// The opcode byte. Where an instruction exists for both widths the two
    /// opcodes are neighbours, the byte form first.
    pub open spec fn spec_opcode(&self) -> u8 {
        match *self {
            Instruction::Nop => 0x00,
            Instruction::MovI2R(value, _) => paired_opcode(0x01, value.spec_width()),
            Instruction::MovI2RP(value, _) => paired_opcode(0x03, value.spec_width()),
            Instruction::MovI2IP(value, _) => paired_opcode(0x05, value.spec_width()),
            Instruction::MovIP2R(_, dest) => paired_opcode(0x07, dest.spec_width()),
            Instruction::MovIP2RP(_, _) => 0x09,
            Instruction::MovIP2IP(_, _) => 0x0A,
            Instruction::MovR2R(src, _) => paired_opcode(0x0B, src.spec_width()),
            Instruction::MovR2RP(src, _) => paired_opcode(0x0D, src.spec_width()),
            Instruction::MovR2IP(src, _) => paired_opcode(0x0F, src.spec_width()),
            Instruction::MovRP2R(_, dest) => paired_opcode(0x11, dest.spec_width()),
            Instruction::MovRP2RP(_, _) => 0x13,
            Instruction::MovRP2IP(_, _) => 0x14,
        }
    }

    /// The encoding: the opcode, a byte for the register selectors, and then
    /// each immediate as two bytes, low byte first.
    pub open spec fn spec_compile(&self) -> Seq<u8> {
        match *self {
            Instruction::Nop => seq![self.spec_opcode(), 0x00u8],
            Instruction::MovI2IP(src, dest) | Instruction::MovIP2IP(src, dest) => seq![
                self.spec_opcode(),
                0x00u8,
                low_byte(src.value()),
                high_byte(src.value()),
                low_byte(dest.value()),
                high_byte(dest.value()),
            ],
            Instruction::MovI2R(value, dest)
            | Instruction::MovI2RP(value, dest)
            | Instruction::MovIP2R(value, dest)
            | Instruction::MovIP2RP(value, dest) => seq![
                self.spec_opcode(),
                dest.spec_as_dest(),
                low_byte(value.value()),
                high_byte(value.value()),
            ],
            Instruction::MovR2IP(src, dest) | Instruction::MovRP2IP(src, dest) => seq![
                self.spec_opcode(),
                src.selector(),
                low_byte(dest.value()),
                high_byte(dest.value()),
            ],
            Instruction::MovR2R(src, dest)
            | Instruction::MovR2RP(src, dest)
            | Instruction::MovRP2R(src, dest)
            | Instruction::MovRP2RP(src, dest) => seq![
                self.spec_opcode(),
                src.spec_as_src_with(dest),
            ],
        }
    }

    /// Encodes the instruction.
    pub fn compile(&self) -> (bytes: Vec<u8>)
        ensures
            bytes@ == self.spec_compile(),
    {
        let bytes = match self {
            Instruction::Nop => vec![self.opcode(), 0x00],
            Instruction::MovI2IP(src, dest) | Instruction::MovIP2IP(src, dest) => vec![
                self.opcode(),
                0x00,
                src.get_byte(0),
                src.get_byte(1),
                dest.get_byte(0),
                dest.get_byte(1),
            ],
            Instruction::MovI2R(value, dest)
            | Instruction::MovI2RP(value, dest)
            | Instruction::MovIP2R(value, dest)
            | Instruction::MovIP2RP(value, dest) => vec![
                self.opcode(),
                dest.as_dest(),
                value.get_byte(0),
                value.get_byte(1),
            ],
            Instruction::MovR2IP(src, dest) | Instruction::MovRP2IP(src, dest) => vec![
                self.opcode(),
                src.as_src(),
                dest.get_byte(0),
                dest.get_byte(1),
            ],
            Instruction::MovR2R(src, dest)
            | Instruction::MovR2RP(src, dest)
            | Instruction::MovRP2R(src, dest)
            | Instruction::MovRP2RP(src, dest) => vec![self.opcode(), src.as_src_with(dest)],
        };
        assert(bytes@ =~= self.spec_compile());
        bytes
    }

    /// The opcode byte of the instruction.
    #[verifier::when_used_as_spec(spec_opcode)]
    pub fn opcode(&self) -> (op: u8)
        ensures
            op == self.spec_opcode(),
            op <= 0x14,
    {
        match self {
            Instruction::Nop => 0x00,
            Instruction::MovI2R(value, _) => pair(0x01, value.width()),
            Instruction::MovI2RP(value, _) => pair(0x03, value.width()),
            Instruction::MovI2IP(value, _) => pair(0x05, value.width()),
            Instruction::MovIP2R(_, dest) => pair(0x07, dest.width()),
            Instruction::MovIP2RP(_, _) => 0x09,
            Instruction::MovIP2IP(_, _) => 0x0A,
            Instruction::MovR2R(src, _) => pair(0x0B, src.width()),
            Instruction::MovR2RP(src, _) => pair(0x0D, src.width()),
            Instruction::MovR2IP(src, _) => pair(0x0F, src.width()),
            Instruction::MovRP2R(_, dest) => pair(0x11, dest.width()),
            Instruction::MovRP2RP(_, _) => 0x13,
            Instruction::MovRP2IP(_, _) => 0x14,
        }
    }
}

fn pair(start: u8, width: Width) -> (op: u8)
    requires
        start < 0xFF,
    ensures
        op == paired_opcode(start, width),
{
    match width {
        Width::Byte => start,
        Width::Word => start + 1,
    }
}

} // verus!

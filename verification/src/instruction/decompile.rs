//! Decoding: from bytes back to the instruction they encode.

use vstd::prelude::*;
use crate::error::Error;
use crate::instruction::Instruction;
use crate::value::{high_byte, low_byte, Immediate, Register, Width};

verus! {

/// The number whose low byte is `lo` and whose next byte is `hi`.
pub open spec fn imm_value(lo: u8, hi: u8) -> u64 {
    (lo + 0x100 * hi) as u64
}

/// The immediate of the given width read from `bytes[at]` and `bytes[at + 1]`.
///
/// A missing byte is reported by its place in the immediate, 0 or 1. A byte
/// immediate whose high byte is not zero is out of bounds.
pub open spec fn spec_read_imm(bytes: Seq<u8>, at: int, width: Width) -> Result<Immediate, Error> {
    if bytes.len() <= at {
        Err(Error::NoValue(0))
    } else if bytes.len() <= at + 1 {
        Err(Error::NoValue(1))
    } else {
        let value = imm_value(bytes[at], bytes[at + 1]);
        if width.spec_fits(value) {
            Ok(Immediate::spec_new(width, value))
        } else {
            Err(Error::NumberOOB(value, width))
        }
    }
}

/// An immediate that is read is well formed.
pub proof fn lemma_read_imm_wf(bytes: Seq<u8>, at: int, width: Width)
    ensures
        spec_read_imm(bytes, at, width) matches Ok(imm) ==> imm.wf(),
{
    broadcast use Immediate::lemma_parts;

}

/// Two bytes taken from a 16-bit value give the value back.
pub proof fn lemma_imm_value(value: u64)
    requires
        value < 0x1_0000,
    ensures
        imm_value(low_byte(value), high_byte(value)) == value,
        value < 0x100 ==> high_byte(value) == 0,
{
}

impl Instruction {
    pub open spec fn spec_decompile_movi2r(width: Width, regs: u8, bytes: Seq<u8>) -> Result<
        Instruction,
        Error,
    > {
        match spec_read_imm(bytes, 2, width) {
            Err(e) => Err(e),
            Ok(value) => Instruction::MovI2R(
                value,
                Register::spec_from_dest(width, regs),
            ).spec_check_valid(),
        }
    }

    pub open spec fn spec_decompile_movi2rp(width: Width, regs: u8, bytes: Seq<u8>) -> Result<
        Instruction,
        Error,
    > {
        match spec_read_imm(bytes, 2, width) {
            Err(e) => Err(e),
            Ok(value) => Instruction::MovI2RP(
                value,
                Register::spec_from_dest(Width::Word, regs),
            ).spec_check_valid(),
        }
    }

    pub open spec fn spec_decompile_movi2ip(width: Width, bytes: Seq<u8>) -> Result<
        Instruction,
        Error,
    > {
        match spec_read_imm(bytes, 2, width) {
            Err(e) => Err(e),
            Ok(value) => match spec_read_imm(bytes, 4, Width::Word) {
                Err(e) => Err(e),
                Ok(dest) => Instruction::MovI2IP(value, dest).spec_check_valid(),
            },
        }
    }

    pub open spec fn spec_decompile_movip2r(width: Width, regs: u8, bytes: Seq<u8>) -> Result<
        Instruction,
        Error,
    > {
        match spec_read_imm(bytes, 2, Width::Word) {
            Err(e) => Err(e),
            Ok(value) => Instruction::MovIP2R(
                value,
                Register::spec_from_dest(width, regs),
            ).spec_check_valid(),
        }
    }

    pub open spec fn spec_decompile_movip2rp(regs: u8, bytes: Seq<u8>) -> Result<
        Instruction,
        Error,
    > {
        match spec_read_imm(bytes, 2, Width::Word) {
            Err(e) => Err(e),
            Ok(value) => Instruction::MovIP2RP(
                value,
                Register::spec_from_dest(Width::Word, regs),
            ).spec_check_valid(),
        }
    }

    pub open spec fn spec_decompile_movip2ip(bytes: Seq<u8>) -> Result<Instruction, Error> {
        match spec_read_imm(bytes, 2, Width::Word) {
            Err(e) => Err(e),
            Ok(value) => match spec_read_imm(bytes, 4, Width::Word) {
                Err(e) => Err(e),
                Ok(dest) => Instruction::MovIP2IP(value, dest).spec_check_valid(),
            },
        }
    }

    pub open spec fn spec_decompile_movr2r(width: Width, regs: u8) -> Result<Instruction, Error> {
        Instruction::MovR2R(
            Register::spec_from_src(width, regs),
            Register::spec_from_dest(width, regs),
        ).spec_check_valid()
    }

    pub open spec fn spec_decompile_movr2rp(width: Width, regs: u8) -> Result<Instruction, Error> {
        Instruction::MovR2RP(
            Register::spec_from_src(width, regs),
            Register::spec_from_dest(Width::Word, regs),
        ).spec_check_valid()
    }

    pub open spec fn spec_decompile_movr2ip(width: Width, regs: u8, bytes: Seq<u8>) -> Result<
        Instruction,
        Error,
    > {
        match spec_read_imm(bytes, 2, Width::Word) {
            Err(e) => Err(e),
            Ok(dest) => Instruction::MovR2IP(
                Register::spec_from_src(width, regs),
                dest,
            ).spec_check_valid(),
        }
    }

    pub open spec fn spec_decompile_movrp2r(width: Width, regs: u8) -> Result<Instruction, Error> {
        Instruction::MovRP2R(
            Register::spec_from_src(Width::Word, regs),
            Register::spec_from_dest(width, regs),
        ).spec_check_valid()
    }

    pub open spec fn spec_decompile_movrp2rp(regs: u8) -> Result<Instruction, Error> {
        Instruction::MovRP2RP(
            Register::spec_from_src(Width::Word, regs),
            Register::spec_from_dest(Width::Word, regs),
        ).spec_check_valid()
    }

    pub open spec fn spec_decompile_movrp2ip(regs: u8, bytes: Seq<u8>) -> Result<
        Instruction,
        Error,
    > {
        match spec_read_imm(bytes, 2, Width::Word) {
            Err(e) => Err(e),
            Ok(dest) => Instruction::MovRP2IP(
                Register::spec_from_src(Width::Word, regs),
                dest,
            ).spec_check_valid(),
        }
    }

    /// The instruction at the head of `bytes`, or the reason why there is
    /// none. Bytes after the instruction are not looked at.
    ///
    /// The opcode and the register byte must both be present before the
    /// opcode is even examined; after that the opcode alone decides which
    /// operands are read.
    pub open spec fn spec_decompile(bytes: Seq<u8>) -> Result<Instruction, Error> {
        if bytes.len() == 0 {
            Err(Error::NoOpcode)
        } else if bytes.len() == 1 {
            Err(Error::NoRegs)
        } else {
            let opcode = bytes[0];
            let regs = bytes[1];
            if opcode == 0x00 {
                Ok(Instruction::Nop)
            } else if opcode == 0x01 {
                Self::spec_decompile_movi2r(Width::Byte, regs, bytes)
            } else if opcode == 0x02 {
                Self::spec_decompile_movi2r(Width::Word, regs, bytes)
            } else if opcode == 0x03 {
                Self::spec_decompile_movi2rp(Width::Byte, regs, bytes)
            } else if opcode == 0x04 {
                Self::spec_decompile_movi2rp(Width::Word, regs, bytes)
            } else if opcode == 0x05 {
                Self::spec_decompile_movi2ip(Width::Byte, bytes)
            } else if opcode == 0x06 {
                Self::spec_decompile_movi2ip(Width::Word, bytes)
            } else if opcode == 0x07 {
                Self::spec_decompile_movip2r(Width::Byte, regs, bytes)
            } else if opcode == 0x08 {
                Self::spec_decompile_movip2r(Width::Word, regs, bytes)
            } else if opcode == 0x09 {
                Self::spec_decompile_movip2rp(regs, bytes)
            } else if opcode == 0x0A {
                Self::spec_decompile_movip2ip(bytes)
            } else if opcode == 0x0B {
                Self::spec_decompile_movr2r(Width::Byte, regs)
            } else if opcode == 0x0C {
                Self::spec_decompile_movr2r(Width::Word, regs)
            } else if opcode == 0x0D {
                Self::spec_decompile_movr2rp(Width::Byte, regs)
            } else if opcode == 0x0E {
                Self::spec_decompile_movr2rp(Width::Word, regs)
            } else if opcode == 0x0F {
                Self::spec_decompile_movr2ip(Width::Byte, regs, bytes)
            } else if opcode == 0x10 {
                Self::spec_decompile_movr2ip(Width::Word, regs, bytes)
            } else if opcode == 0x11 {
                Self::spec_decompile_movrp2r(Width::Byte, regs)
            } else if opcode == 0x12 {
                Self::spec_decompile_movrp2r(Width::Word, regs)
            } else if opcode == 0x13 {
                Self::spec_decompile_movrp2rp(regs)
            } else if opcode == 0x14 {
                Self::spec_decompile_movrp2ip(regs, bytes)
            } else {
                Err(Error::NoSuchOpcode(opcode))
            }
        }
    }

    /// Decodes the instruction at the head of `bytes`.
    pub fn decompile(bytes: &[u8]) -> (r: Result<Self, Error>)
        ensures
            r == Instruction::spec_decompile(bytes@),
            r matches Ok(instr) ==> instr.wf() && instr.spec_is_valid(),
    {
        if bytes.len() == 0 {
            return Err(Error::NoOpcode);
        }
        if bytes.len() == 1 {
            return Err(Error::NoRegs);
        }
        let opcode: u8 = bytes[0];
        let regs: u8 = bytes[1];
        if opcode == 0x00 {
            Self::nop()
        } else if opcode == 0x01 {
            Self::decompile_movi2r(Width::Byte, regs, bytes)
        } else if opcode == 0x02 {
            Self::decompile_movi2r(Width::Word, regs, bytes)
        } else if opcode == 0x03 {
            Self::decompile_movi2rp(Width::Byte, regs, bytes)
        } else if opcode == 0x04 {
            Self::decompile_movi2rp(Width::Word, regs, bytes)
        } else if opcode == 0x05 {
            Self::decompile_movi2ip(Width::Byte, bytes)
        } else if opcode == 0x06 {
            Self::decompile_movi2ip(Width::Word, bytes)
        } else if opcode == 0x07 {
            Self::decompile_movip2r(Width::Byte, regs, bytes)
        } else if opcode == 0x08 {
            Self::decompile_movip2r(Width::Word, regs, bytes)
        } else if opcode == 0x09 {
            Self::decompile_movip2rp(regs, bytes)
        } else if opcode == 0x0A {
            Self::decompile_movip2ip(bytes)
        } else if opcode == 0x0B {
            Self::decompile_movr2r(Width::Byte, regs)
        } else if opcode == 0x0C {
            Self::decompile_movr2r(Width::Word, regs)
        } else if opcode == 0x0D {
            Self::decompile_movr2rp(Width::Byte, regs)
        } else if opcode == 0x0E {
            Self::decompile_movr2rp(Width::Word, regs)
        } else if opcode == 0x0F {
            Self::decompile_movr2ip(Width::Byte, regs, bytes)
        } else if opcode == 0x10 {
            Self::decompile_movr2ip(Width::Word, regs, bytes)
        } else if opcode == 0x11 {
            Self::decompile_movrp2r(Width::Byte, regs)
        } else if opcode == 0x12 {
            Self::decompile_movrp2r(Width::Word, regs)
        } else if opcode == 0x13 {
            Self::decompile_movrp2rp(regs)
        } else if opcode == 0x14 {
            Self::decompile_movrp2ip(regs, bytes)
        } else {
            Err(Error::NoSuchOpcode(opcode))
        }
    }

    fn decompile_movi2r(width: Width, regs: u8, bytes: &[u8]) -> (r: Result<Self, Error>)
        ensures
            r == Self::spec_decompile_movi2r(width, regs, bytes@),
            r matches Ok(instr) ==> instr.wf(),
    {
        let value = read_imm(bytes, 2, width)?;
        let dest = Register::from_dest(width, regs);
        Instruction::movi2r(value, dest)
    }

    fn decompile_movi2rp(width: Width, regs: u8, bytes: &[u8]) -> (r: Result<Self, Error>)
        ensures
            r == Self::spec_decompile_movi2rp(width, regs, bytes@),
            r matches Ok(instr) ==> instr.wf(),
    {
        let value = read_imm(bytes, 2, width)?;
        let dest = Register::from_dest(Width::Word, regs);
        Instruction::movi2rp(value, dest)
    }

    fn decompile_movi2ip(width: Width, bytes: &[u8]) -> (r: Result<Self, Error>)
        ensures
            r == Self::spec_decompile_movi2ip(width, bytes@),
            r matches Ok(instr) ==> instr.wf(),
    {
        let value = read_imm(bytes, 2, width)?;
        let dest = read_imm(bytes, 4, Width::Word)?;
        Instruction::movi2ip(value, dest)
    }

    fn decompile_movip2r(width: Width, regs: u8, bytes: &[u8]) -> (r: Result<Self, Error>)
        ensures
            r == Self::spec_decompile_movip2r(width, regs, bytes@),
            r matches Ok(instr) ==> instr.wf(),
    {
        let value = read_imm(bytes, 2, Width::Word)?;
        let dest = Register::from_dest(width, regs);
        Instruction::movip2r(value, dest)
    }

    fn decompile_movip2rp(regs: u8, bytes: &[u8]) -> (r: Result<Self, Error>)
        ensures
            r == Self::spec_decompile_movip2rp(regs, bytes@),
            r matches Ok(instr) ==> instr.wf(),
    {
        let value = read_imm(bytes, 2, Width::Word)?;
        let dest = Register::from_dest(Width::Word, regs);
        Instruction::movip2rp(value, dest)
    }

    fn decompile_movip2ip(bytes: &[u8]) -> (r: Result<Self, Error>)
        ensures
            r == Self::spec_decompile_movip2ip(bytes@),
            r matches Ok(instr) ==> instr.wf(),
    {
        let value = read_imm(bytes, 2, Width::Word)?;
        let dest = read_imm(bytes, 4, Width::Word)?;
        Instruction::movip2ip(value, dest)
    }

    fn decompile_movr2r(width: Width, regs: u8) -> (r: Result<Self, Error>)
        ensures
            r == Self::spec_decompile_movr2r(width, regs),
            r matches Ok(instr) ==> instr.wf(),
    {
        let src = Register::from_src(width, regs);
        let dest = Register::from_dest(width, regs);
        Instruction::movr2r(src, dest)
    }

    fn decompile_movr2rp(width: Width, regs: u8) -> (r: Result<Self, Error>)
        ensures
            r == Self::spec_decompile_movr2rp(width, regs),
            r matches Ok(instr) ==> instr.wf(),
    {
        let src = Register::from_src(width, regs);
        let dest = Register::from_dest(Width::Word, regs);
        Instruction::movr2rp(src, dest)
    }

    fn decompile_movr2ip(width: Width, regs: u8, bytes: &[u8]) -> (r: Result<Self, Error>)
        ensures
            r == Self::spec_decompile_movr2ip(width, regs, bytes@),
            r matches Ok(instr) ==> instr.wf(),
    {
        let src = Register::from_src(width, regs);
        let dest = read_imm(bytes, 2, Width::Word)?;
        Instruction::movr2ip(src, dest)
    }

    fn decompile_movrp2r(width: Width, regs: u8) -> (r: Result<Self, Error>)
        ensures
            r == Self::spec_decompile_movrp2r(width, regs),
            r matches Ok(instr) ==> instr.wf(),
    {
        let src = Register::from_src(Width::Word, regs);
        let dest = Register::from_dest(width, regs);
        Instruction::movrp2r(src, dest)
    }

    fn decompile_movrp2rp(regs: u8) -> (r: Result<Self, Error>)
        ensures
            r == Self::spec_decompile_movrp2rp(regs),
            r matches Ok(instr) ==> instr.wf(),
    {
        let src = Register::from_src(Width::Word, regs);
        let dest = Register::from_dest(Width::Word, regs);
        Instruction::movrp2rp(src, dest)
    }

    fn decompile_movrp2ip(regs: u8, bytes: &[u8]) -> (r: Result<Self, Error>)
        ensures
            r == Self::spec_decompile_movrp2ip(regs, bytes@),
            r matches Ok(instr) ==> instr.wf(),
    {
        let src = Register::from_src(Width::Word, regs);
        let dest = read_imm(bytes, 2, Width::Word)?;
        Instruction::movrp2ip(src, dest)
    }

    /// What decodes is a valid instruction of well-formed operands.
    pub proof fn lemma_decompile_wf(bytes: Seq<u8>)
        ensures
            Instruction::spec_decompile(bytes) matches Ok(instr) ==> instr.wf()
                && instr.spec_is_valid(),
    {
        if bytes.len() >= 2 {
            let regs = bytes[1];
            lemma_read_imm_wf(bytes, 2, Width::Byte);
            lemma_read_imm_wf(bytes, 2, Width::Word);
            lemma_read_imm_wf(bytes, 4, Width::Word);
            Register::lemma_of_selector_wf(Width::Byte, regs % 16);
            Register::lemma_of_selector_wf(Width::Word, regs % 16);
            Register::lemma_of_selector_wf(Width::Byte, regs / 16);
            Register::lemma_of_selector_wf(Width::Word, regs / 16);
            match Instruction::spec_decompile(bytes) {
                Ok(instr) => {
                    assert(instr.wf());
                    assert(instr.spec_is_valid());
                },
                Err(_) => {},
            }
        }
    }

    /// Round trip: decoding the encoding of a valid instruction, whatever
    /// bytes follow it, gives the instruction back.
    pub proof fn lemma_decompile_compile(self, rest: Seq<u8>)
        requires
            self.wf(),
            self.spec_is_valid(),
        ensures
            Instruction::spec_decompile(self.spec_compile() + rest) == Ok::<Instruction, Error>(
                self,
            ),
    {
        broadcast use Immediate::lemma_parts, Immediate::lemma_rebuild;

        let bytes = self.spec_compile() + rest;
        match self {
            Instruction::Nop => {},
            Instruction::MovI2R(value, dest)
            | Instruction::MovI2RP(value, dest)
            | Instruction::MovIP2R(value, dest)
            | Instruction::MovIP2RP(value, dest) => {
                lemma_imm_value(value.value());
                dest.lemma_src_round_trip(dest);
                assert(bytes[1] == dest.spec_as_dest());
                assert(bytes[2] == low_byte(value.value()));
                assert(bytes[3] == high_byte(value.value()));
            },
            Instruction::MovI2IP(src, dest) | Instruction::MovIP2IP(src, dest) => {
                lemma_imm_value(src.value());
                lemma_imm_value(dest.value());
                assert(bytes[2] == low_byte(src.value()));
                assert(bytes[3] == high_byte(src.value()));
                assert(bytes[4] == low_byte(dest.value()));
                assert(bytes[5] == high_byte(dest.value()));
            },
            Instruction::MovR2IP(src, dest) | Instruction::MovRP2IP(src, dest) => {
                lemma_imm_value(dest.value());
                src.lemma_src_round_trip(src);
                assert(bytes[1] == src.selector());
                assert(bytes[2] == low_byte(dest.value()));
                assert(bytes[3] == high_byte(dest.value()));
            },
            Instruction::MovR2R(src, dest)
            | Instruction::MovR2RP(src, dest)
            | Instruction::MovRP2R(src, dest)
            | Instruction::MovRP2RP(src, dest) => {
                src.lemma_src_round_trip(dest);
                assert(bytes[1] == src.spec_as_src_with(dest));
            },
        }
    }
}

/// Reads the immediate of the given width that starts at `bytes[at]`.
fn read_imm(bytes: &[u8], at: usize, width: Width) -> (r: Result<Immediate, Error>)
    requires
        at < usize::MAX,
    ensures
        r == spec_read_imm(bytes@, at as int, width),
        r matches Ok(imm) ==> imm.wf(),
{
    broadcast use Immediate::lemma_parts;

    if bytes.len() <= at {
        return Err(Error::NoValue(0));
    }
    if bytes.len() <= at + 1 {
        return Err(Error::NoValue(1));
    }
    let lo: u8 = bytes[at];
    let hi: u8 = bytes[at + 1];
    let value: u64 = (lo as u64) | ((hi as u64) << 8);
    assert((lo as u64) | ((hi as u64) << 8) == lo as u64 + 0x100 * (hi as u64)) by (bit_vector);
    Immediate::new(width, value)
}

} // verus!

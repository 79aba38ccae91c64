//! The instruction set: the legal forms of an instruction and the rules that
//! their operands obey.

use vstd::prelude::*;
use crate::error::Error;
use crate::value::{Immediate, Register, Value, Width};

pub mod compile;
pub mod decompile;

verus! {

/// One instruction: `Nop`, or a move from a source operand to a destination.
///
/// In a variant's name `I` is an immediate, `R` a register, and a trailing `P`
/// marks the operand as a pointer: the address of the datum, not the datum.
#[derive(Debug, Clone, Copy, PartialEq, Eq, Structural)]
pub enum Instruction {
    Nop,
    MovI2R(Immediate, Register),
    MovI2RP(Immediate, Register),
    MovI2IP(Immediate, Immediate),
    MovIP2R(Immediate, Register),
    MovIP2RP(Immediate, Register),
    MovIP2IP(Immediate, Immediate),
    MovR2R(Register, Register),
    MovR2RP(Register, Register),
    MovR2IP(Register, Immediate),
    MovRP2R(Register, Register),
    MovRP2RP(Register, Register),
    MovRP2IP(Register, Immediate),
}

/// Names one operand slot of an instruction.
#[derive(Debug, Clone, Copy, PartialEq, Eq, Structural)]
pub enum ParamIdx {
    SrcReg,
    DestReg,
    FirstImm,
    SecondImm,
}

impl Instruction {
    /// Every operand is a well-formed value of its type.
    pub open spec fn wf(self) -> bool {
        match self {
            Instruction::Nop => true,
            Instruction::MovI2R(src, dest) => src.wf() && dest.wf(),
            Instruction::MovI2RP(src, dest) => src.wf() && dest.wf(),
            Instruction::MovI2IP(src, dest) => src.wf() && dest.wf(),
            Instruction::MovIP2R(src, dest) => src.wf() && dest.wf(),
            Instruction::MovIP2RP(src, dest) => src.wf() && dest.wf(),
            Instruction::MovIP2IP(src, dest) => src.wf() && dest.wf(),
            Instruction::MovR2R(src, dest) => src.wf() && dest.wf(),
            Instruction::MovR2RP(src, dest) => src.wf() && dest.wf(),
            Instruction::MovR2IP(src, dest) => src.wf() && dest.wf(),
            Instruction::MovRP2R(src, dest) => src.wf() && dest.wf(),
            Instruction::MovRP2RP(src, dest) => src.wf() && dest.wf(),
            Instruction::MovRP2IP(src, dest) => src.wf() && dest.wf(),
        }
    }

    /// The validity rules: a pointer operand is a word wide, and a move between
    /// two registers, or from an immediate into a register, joins operands of
    /// one width.
    pub open spec fn spec_is_valid(&self) -> bool {
        match *self {
            Instruction::Nop => true,
            Instruction::MovI2R(src, dest) => src.spec_width() == dest.spec_width(),
            Instruction::MovI2RP(_, dest) => dest.spec_width() == Width::Word,
            Instruction::MovI2IP(_, dest) => dest.spec_width() == Width::Word,
            Instruction::MovIP2R(src, _) => src.spec_width() == Width::Word,
            Instruction::MovIP2RP(src, dest) => src.spec_width() == Width::Word
                && dest.spec_width() == Width::Word,
            Instruction::MovIP2IP(src, dest) => src.spec_width() == Width::Word
                && dest.spec_width() == Width::Word,
            Instruction::MovR2R(src, dest) => src.spec_width() == dest.spec_width(),
            Instruction::MovR2RP(_, dest) => dest.spec_width() == Width::Word,
            Instruction::MovR2IP(_, dest) => dest.spec_width() == Width::Word,
            Instruction::MovRP2R(src, _) => src.spec_width() == Width::Word,
            Instruction::MovRP2RP(src, dest) => src.spec_width() == Width::Word
                && dest.spec_width() == Width::Word,
            Instruction::MovRP2IP(src, dest) => src.spec_width() == Width::Word
                && dest.spec_width() == Width::Word,
        }
    }

    /// What a validating constructor returns for the candidate `self`.
    pub open spec fn spec_check_valid(self) -> Result<Instruction, Error> {
        if self.spec_is_valid() {
            Ok(self)
        } else {
            Err(Error::InvalidOperands(self))
        }
    }

    /// Whether the instruction has an immediate operand at all.
    pub open spec fn has_first_imm(self) -> bool {
        match self {
            Instruction::MovI2R(..) | Instruction::MovI2RP(..) | Instruction::MovI2IP(..)
            | Instruction::MovIP2R(..) | Instruction::MovIP2RP(..) | Instruction::MovIP2IP(..)
            | Instruction::MovR2IP(..) | Instruction::MovRP2IP(..) => true,
            _ => false,
        }
    }

    /// Whether the destination of the instruction is an immediate.
    pub open spec fn has_second_imm(self) -> bool {
        match self {
            Instruction::MovI2IP(..) | Instruction::MovIP2IP(..) | Instruction::MovR2IP(..)
            | Instruction::MovRP2IP(..) => true,
            _ => false,
        }
    }

    /// The first immediate operand: the source if it is an immediate, else the
    /// destination.
    pub open spec fn first_imm(self) -> Immediate
        recommends
            self.has_first_imm(),
    {
        match self {
            Instruction::MovI2R(src, _) => src,
            Instruction::MovI2RP(src, _) => src,
            Instruction::MovI2IP(src, _) => src,
            Instruction::MovIP2R(src, _) => src,
            Instruction::MovIP2RP(src, _) => src,
            Instruction::MovIP2IP(src, _) => src,
            Instruction::MovR2IP(_, dest) => dest,
            Instruction::MovRP2IP(_, dest) => dest,
            _ => arbitrary(),
        }
    }

    /// The immediate that stands as destination.
    pub open spec fn second_imm(self) -> Immediate
        recommends
            self.has_second_imm(),
    {
        match self {
            Instruction::MovI2IP(_, dest) => dest,
            Instruction::MovIP2IP(_, dest) => dest,
            Instruction::MovR2IP(_, dest) => dest,
            Instruction::MovRP2IP(_, dest) => dest,
            _ => arbitrary(),
        }
    }

    /// The immediate in the slot that `param_idx` names.
    pub open spec fn imm_at(self, param_idx: ParamIdx) -> Immediate
        recommends
            self.has_imm(param_idx),
    {
        match param_idx {
            ParamIdx::FirstImm => self.first_imm(),
            _ => self.second_imm(),
        }
    }

    /// Whether the source of the move is an immediate, bare or as pointer.
    pub open spec fn src_is_imm(self) -> bool {
        match self {
            Instruction::MovI2R(..) | Instruction::MovI2RP(..) | Instruction::MovI2IP(..)
            | Instruction::MovIP2R(..) | Instruction::MovIP2RP(..)
            | Instruction::MovIP2IP(..) => true,
            _ => false,
        }
    }

    /// Whether two instructions differ at most in the values of their
    /// immediates: they are of one variant, with the same registers and with
    /// immediates of the same widths.
    pub open spec fn same_shape(self, other: Instruction) -> bool {
        match (self, other) {
            (Instruction::Nop, Instruction::Nop) => true,
            (Instruction::MovI2R(a, r), Instruction::MovI2R(b, q)) => a.spec_width()
                == b.spec_width() && r == q,
            (Instruction::MovI2RP(a, r), Instruction::MovI2RP(b, q)) => a.spec_width()
                == b.spec_width() && r == q,
            (Instruction::MovI2IP(a, c), Instruction::MovI2IP(b, d)) => a.spec_width()
                == b.spec_width() && c.spec_width() == d.spec_width(),
            (Instruction::MovIP2R(a, r), Instruction::MovIP2R(b, q)) => a.spec_width()
                == b.spec_width() && r == q,
            (Instruction::MovIP2RP(a, r), Instruction::MovIP2RP(b, q)) => a.spec_width()
                == b.spec_width() && r == q,
            (Instruction::MovIP2IP(a, c), Instruction::MovIP2IP(b, d)) => a.spec_width()
                == b.spec_width() && c.spec_width() == d.spec_width(),
            (Instruction::MovR2R(r, t), Instruction::MovR2R(q, u)) => r == q && t == u,
            (Instruction::MovR2RP(r, t), Instruction::MovR2RP(q, u)) => r == q && t == u,
            (Instruction::MovR2IP(r, c), Instruction::MovR2IP(q, d)) => r == q && c.spec_width()
                == d.spec_width(),
            (Instruction::MovRP2R(r, t), Instruction::MovRP2R(q, u)) => r == q && t == u,
            (Instruction::MovRP2RP(r, t), Instruction::MovRP2RP(q, u)) => r == q && t == u,
            (Instruction::MovRP2IP(r, c), Instruction::MovRP2IP(q, d)) => r == q && c.spec_width()
                == d.spec_width(),
            _ => false,
        }
    }

    /// The immediate that takes the place of `old` when `new_value` is
    /// written into its slot: the width stays, the value is cut to it.
    pub open spec fn patched(old: Immediate, new_value: u64) -> Immediate {
        Immediate::spec_new(old.spec_width(), old.spec_width().truncate(new_value))
    }

    /// The instruction with its first immediate replaced.
    pub open spec fn spec_replace_first_imm(self, new_value: u64) -> Instruction
        recommends
            self.has_first_imm(),
    {
        match self {
            Instruction::MovI2R(src, dest) => Instruction::MovI2R(
                Self::patched(src, new_value),
                dest,
            ),
            Instruction::MovI2RP(src, dest) => Instruction::MovI2RP(
                Self::patched(src, new_value),
                dest,
            ),
            Instruction::MovI2IP(src, dest) => Instruction::MovI2IP(
                Self::patched(src, new_value),
                dest,
            ),
            Instruction::MovIP2R(src, dest) => Instruction::MovIP2R(
                Self::patched(src, new_value),
                dest,
            ),
            Instruction::MovIP2RP(src, dest) => Instruction::MovIP2RP(
                Self::patched(src, new_value),
                dest,
            ),
            Instruction::MovIP2IP(src, dest) => Instruction::MovIP2IP(
                Self::patched(src, new_value),
                dest,
            ),
            Instruction::MovR2IP(src, dest) => Instruction::MovR2IP(
                src,
                Self::patched(dest, new_value),
            ),
            Instruction::MovRP2IP(src, dest) => Instruction::MovRP2IP(
                src,
                Self::patched(dest, new_value),
            ),
            _ => self,
        }
    }

    /// The instruction with its destination immediate replaced.
    pub open spec fn spec_replace_second_imm(self, new_value: u64) -> Instruction
        recommends
            self.has_second_imm(),
    {
        match self {
            Instruction::MovI2IP(src, dest) => Instruction::MovI2IP(
                src,
                Self::patched(dest, new_value),
            ),
            Instruction::MovIP2IP(src, dest) => Instruction::MovIP2IP(
                src,
                Self::patched(dest, new_value),
            ),
            Instruction::MovR2IP(src, dest) => Instruction::MovR2IP(
                src,
                Self::patched(dest, new_value),
            ),
            Instruction::MovRP2IP(src, dest) => Instruction::MovRP2IP(
                src,
                Self::patched(dest, new_value),
            ),
            _ => self,
        }
    }

    /// The instruction with the immediate in slot `param_idx` replaced.
    pub open spec fn spec_replace_imm(self, param_idx: ParamIdx, new_value: u64) -> Instruction {
        match param_idx {
            ParamIdx::FirstImm => self.spec_replace_first_imm(new_value),
            ParamIdx::SecondImm => self.spec_replace_second_imm(new_value),
            _ => self,
        }
    }

    /// Whether the instruction has the immediate slot that `param_idx` names.
    pub open spec fn has_imm(self, param_idx: ParamIdx) -> bool {
        match param_idx {
            ParamIdx::FirstImm => self.has_first_imm(),
            ParamIdx::SecondImm => self.has_second_imm(),
            _ => false,
        }
    }

    pub fn nop() -> (r: Result<Self, Error>)
        ensures
            r == Ok::<Instruction, Error>(Instruction::Nop),
    {
        Ok(Instruction::Nop)
    }

    pub fn movi2r(left: Immediate, right: Register) -> (r: Result<Self, Error>)
        ensures
            r == Instruction::MovI2R(left, right).spec_check_valid(),
    {
        Instruction::MovI2R(left, right).check_valid()
    }

    pub fn movi2rp(left: Immediate, right: Register) -> (r: Result<Self, Error>)
        ensures
            r == Instruction::MovI2RP(left, right).spec_check_valid(),
    {
        Instruction::MovI2RP(left, right).check_valid()
    }

    pub fn movi2ip(left: Immediate, right: Immediate) -> (r: Result<Self, Error>)
        ensures
            r == Instruction::MovI2IP(left, right).spec_check_valid(),
    {
        Instruction::MovI2IP(left, right).check_valid()
    }

    pub fn movip2r(left: Immediate, right: Register) -> (r: Result<Self, Error>)
        ensures
            r == Instruction::MovIP2R(left, right).spec_check_valid(),
    {
        Instruction::MovIP2R(left, right).check_valid()
    }

    pub fn movip2rp(left: Immediate, right: Register) -> (r: Result<Self, Error>)
        ensures
            r == Instruction::MovIP2RP(left, right).spec_check_valid(),
    {
        Instruction::MovIP2RP(left, right).check_valid()
    }

    pub fn movip2ip(left: Immediate, right: Immediate) -> (r: Result<Self, Error>)
        ensures
            r == Instruction::MovIP2IP(left, right).spec_check_valid(),
    {
        Instruction::MovIP2IP(left, right).check_valid()
    }

    pub fn movr2r(left: Register, right: Register) -> (r: Result<Self, Error>)
        ensures
            r == Instruction::MovR2R(left, right).spec_check_valid(),
    {
        Instruction::MovR2R(left, right).check_valid()
    }

    pub fn movr2rp(left: Register, right: Register) -> (r: Result<Self, Error>)
        ensures
            r == Instruction::MovR2RP(left, right).spec_check_valid(),
    {
        Instruction::MovR2RP(left, right).check_valid()
    }

    pub fn movr2ip(left: Register, right: Immediate) -> (r: Result<Self, Error>)
        ensures
            r == Instruction::MovR2IP(left, right).spec_check_valid(),
    {
        Instruction::MovR2IP(left, right).check_valid()
    }

    pub fn movrp2r(left: Register, right: Register) -> (r: Result<Self, Error>)
        ensures
            r == Instruction::MovRP2R(left, right).spec_check_valid(),
    {
        Instruction::MovRP2R(left, right).check_valid()
    }

    pub fn movrp2rp(left: Register, right: Register) -> (r: Result<Self, Error>)
        ensures
            r == Instruction::MovRP2RP(left, right).spec_check_valid(),
    {
        Instruction::MovRP2RP(left, right).check_valid()
    }

    pub fn movrp2ip(left: Register, right: Immediate) -> (r: Result<Self, Error>)
        ensures
            r == Instruction::MovRP2IP(left, right).spec_check_valid(),
    {
        Instruction::MovRP2IP(left, right).check_valid()
    }

    fn check_valid(self) -> (r: Result<Self, Error>)
        ensures
            r == self.spec_check_valid(),
    {
        if self.is_valid() {
            Ok(self)
        } else {
            Err(Error::InvalidOperands(self))
        }
    }

    /// Tests the validity rules on the operands' widths.
    #[verifier::when_used_as_spec(spec_is_valid)]
    pub fn is_valid(&self) -> (b: bool)
        ensures
            b == self.spec_is_valid(),
    {
        match self {
            Instruction::Nop => true,
            Instruction::MovI2R(src, dest) => src.width() == dest.width(),
            Instruction::MovI2RP(_, dest) => dest.width() == Width::Word,
            Instruction::MovI2IP(_, dest) => dest.width() == Width::Word,
            Instruction::MovIP2R(src, _) => src.width() == Width::Word,
            Instruction::MovIP2RP(src, dest) => src.width() == Width::Word && dest.width()
                == Width::Word,
            Instruction::MovIP2IP(src, dest) => src.width() == Width::Word && dest.width()
                == Width::Word,
            Instruction::MovR2R(src, dest) => src.width() == dest.width(),
            Instruction::MovR2RP(_, dest) => dest.width() == Width::Word,
            Instruction::MovR2IP(_, dest) => dest.width() == Width::Word,
            Instruction::MovRP2R(src, _) => src.width() == Width::Word,
            Instruction::MovRP2RP(src, dest) => src.width() == Width::Word && dest.width()
                == Width::Word,
            Instruction::MovRP2IP(src, dest) => src.width() == Width::Word && dest.width()
                == Width::Word,
        }
    }

    /// Number of bytes of the encoded instruction.
    pub fn len(&self) -> (n: u16)
        ensures
            n == self.spec_compile().len(),
            n == 2 || n == 4 || n == 6,
    {
        match self {
            Instruction::Nop => 2,
            Instruction::MovI2IP(..) | Instruction::MovIP2IP(..) => 6,
            Instruction::MovI2R(..) | Instruction::MovI2RP(..) | Instruction::MovIP2R(..)
            | Instruction::MovIP2RP(..) | Instruction::MovR2IP(..) | Instruction::MovRP2IP(..) => 4,
            Instruction::MovR2R(..) | Instruction::MovR2RP(..) | Instruction::MovRP2R(..)
            | Instruction::MovRP2RP(..) => 2,
        }
    }

    /// Writes `new_value` into the immediate slot named by `param_idx`.
    ///
    /// The slot keeps its width and `new_value` is cut to it. The result is
    /// checked like any newly built instruction.
    pub fn replace_imm(self, param_idx: ParamIdx, new_value: u64) -> (r: Result<Self, Error>)
        requires
            self.has_imm(param_idx),
        ensures
            r == self.spec_replace_imm(param_idx, new_value).spec_check_valid(),
    {
        match param_idx {
            ParamIdx::FirstImm => self.replace_first_imm(new_value),
            _ => self.replace_second_imm(new_value),
        }
    }

    /// Writes `new_value` into the first immediate of the instruction.
    pub fn replace_first_imm(self, new_value: u64) -> (r: Result<Self, Error>)
        requires
            self.has_first_imm(),
        ensures
            r == self.spec_replace_first_imm(new_value).spec_check_valid(),
    {
        match self {
            Instruction::MovI2R(src, dest) => Self::movi2r(patch(src, new_value), dest),
            Instruction::MovI2RP(src, dest) => Self::movi2rp(patch(src, new_value), dest),
            Instruction::MovI2IP(src, dest) => Self::movi2ip(patch(src, new_value), dest),
            Instruction::MovIP2R(src, dest) => Self::movip2r(patch(src, new_value), dest),
            Instruction::MovIP2RP(src, dest) => Self::movip2rp(patch(src, new_value), dest),
            Instruction::MovIP2IP(src, dest) => Self::movip2ip(patch(src, new_value), dest),
            Instruction::MovR2IP(src, dest) => Self::movr2ip(src, patch(dest, new_value)),
            Instruction::MovRP2IP(src, dest) => Self::movrp2ip(src, patch(dest, new_value)),
            _ => Ok(self),
        }
    }

    /// Writes `new_value` into the destination immediate of the instruction.
    pub fn replace_second_imm(self, new_value: u64) -> (r: Result<Self, Error>)
        requires
            self.has_second_imm(),
        ensures
            r == self.spec_replace_second_imm(new_value).spec_check_valid(),
    {
        match self {
            Instruction::MovI2IP(src, dest) => Self::movi2ip(src, patch(dest, new_value)),
            Instruction::MovIP2IP(src, dest) => Self::movip2ip(src, patch(dest, new_value)),
            Instruction::MovR2IP(src, dest) => Self::movr2ip(src, patch(dest, new_value)),
            Instruction::MovRP2IP(src, dest) => Self::movrp2ip(src, patch(dest, new_value)),
            _ => Ok(self),
        }
    }

    /// A patched immediate is well formed and as wide as the one it replaces.
    pub proof fn lemma_patched(old: Immediate, new_value: u64)
        ensures
            Self::patched(old, new_value).wf(),
            Self::patched(old, new_value).spec_width() == old.spec_width(),
            Self::patched(old, new_value).value() == old.spec_width().truncate(new_value),
            old.spec_width().spec_fits(new_value) ==> Self::patched(old, new_value).value()
                == new_value,
    {
        broadcast use Immediate::lemma_parts;

    }

    /// Instructions of the same shape agree on all that does not depend on
    /// the values of their immediates.
    pub proof fn lemma_same_shape(self, other: Instruction)
        requires
            self.same_shape(other),
        ensures
            self.spec_is_valid() == other.spec_is_valid(),
            self.has_first_imm() == other.has_first_imm(),
            self.has_second_imm() == other.has_second_imm(),
            self.src_is_imm() == other.src_is_imm(),
            self.spec_opcode() == other.spec_opcode(),
            self.spec_compile().len() == other.spec_compile().len(),
            self.has_first_imm() ==> self.first_imm().spec_width()
                == other.first_imm().spec_width(),
            self.has_second_imm() ==> self.second_imm().spec_width()
                == other.second_imm().spec_width(),
    {
    }

    /// Replacing an immediate puts the patched immediate in its slot, keeps
    /// the shape of the instruction, and, where the source is an immediate
    /// and the destination another, leaves the one that was not named.
    pub proof fn lemma_replace_imm(self, param_idx: ParamIdx, new_value: u64)
        requires
            self.has_imm(param_idx),
        ensures
            self.spec_replace_imm(param_idx, new_value).same_shape(self),
            self.spec_replace_imm(param_idx, new_value).imm_at(param_idx) == Self::patched(
                self.imm_at(param_idx),
                new_value,
            ),
            param_idx == ParamIdx::SecondImm && self.src_is_imm() ==> self.spec_replace_imm(
                param_idx,
                new_value,
            ).first_imm() == self.first_imm(),
    {
        Self::lemma_patched(self.imm_at(param_idx), new_value);
    }

    /// Replacing an immediate changes neither the validity of an instruction
    /// nor the well-formedness of its operands, nor its encoded length.
    pub proof fn lemma_replace_preserves(self, param_idx: ParamIdx, new_value: u64)
        requires
            self.wf(),
        ensures
            self.spec_replace_imm(param_idx, new_value).wf(),
            self.spec_replace_imm(param_idx, new_value).spec_is_valid() == self.spec_is_valid(),
            self.spec_replace_imm(param_idx, new_value).spec_compile().len()
                == self.spec_compile().len(),
            self.spec_replace_imm(param_idx, new_value).has_first_imm() == self.has_first_imm(),
            self.spec_replace_imm(param_idx, new_value).has_second_imm() == self.has_second_imm(),
    {
        if self.has_first_imm() {
            Self::lemma_patched(self.first_imm(), new_value);
        }
        if self.has_second_imm() {
            Self::lemma_patched(self.second_imm(), new_value);
        }
    }
}

/// The immediate of `old`'s width that holds `new_value` cut to that width.
fn patch(old: Immediate, new_value: u64) -> (r: Immediate)
    ensures
        r == Instruction::patched(old, new_value),
        r.wf(),
{
    broadcast use Immediate::lemma_parts;

    let width = old.width();
    let cut: u64 = match width {
        Width::Byte => new_value % 0x100,
        Width::Word => new_value % 0x1_0000,
    };
    Immediate::new_unchecked(width, cut)
}

} // verus!

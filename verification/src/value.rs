//! Operand values: widths, registers and immediates.

use vstd::prelude::*;
use crate::chars::{lowercase_of, str_eq};
use crate::error::Error;

verus! {

/// Size of an operand: one byte or one little-endian word of two bytes.
#[derive(Debug, Clone, Copy, PartialEq, Eq, Structural)]
pub enum Width {
    Byte,
    Word,
}

impl Width {
    /// Number of bytes an operand of this width occupies.
    pub open spec fn spec_len(&self) -> nat {
        match *self {
            Width::Byte => 1,
            Width::Word => 2,
        }
    }

    /// One more than the largest value an operand of this width can hold.
    pub open spec fn limit(self) -> int {
        match self {
            Width::Byte => 0x100,
            Width::Word => 0x1_0000,
        }
    }

    /// Whether `value` can be held by an operand of this width.
    pub open spec fn spec_fits(&self, value: u64) -> bool {
        value < self.limit()
    }

    /// The narrowest width that holds `value`, for values of at most 16 bits.
    pub open spec fn spec_smallest_that_fits(value: u64) -> Width {
        if value <= 0xFF {
            Width::Byte
        } else {
            Width::Word
        }
    }

    /// `value` reduced modulo two to the number of bits of this width.
    pub open spec fn truncate(self, value: u64) -> u64 {
        match self {
            Width::Byte => value % 0x100,
            Width::Word => value % 0x1_0000,
        }
    }

    /// Picks the narrowest width able to hold `value`.
    ///
    /// No width holds a value above `0xFFFF`; such values are excluded.
    pub fn smallest_that_fits(value: u64) -> (w: Width)
        requires
            value <= 0xFFFF,
        ensures
            w == Width::spec_smallest_that_fits(value),
            w.spec_fits(value),
            forall|other: Width| other.spec_fits(value) ==> w.spec_len() <= other.spec_len(),
    {
        if value <= 0xFF {
            Width::Byte
        } else {
            Width::Word
        }
    }

    #[verifier::when_used_as_spec(spec_fits)]
    pub fn fits(&self, value: u64) -> (b: bool)
        ensures
            b == self.spec_fits(value),
    {
        match self {
            Width::Byte => value <= 0xFF,
            Width::Word => value <= 0xFFFF,
        }
    }

    /// Number of bytes an operand of this width occupies.
    pub fn len(&self) -> (n: usize)
        ensures
            n == self.spec_len(),
    {
        match self {
            Width::Byte => 1,
            Width::Word => 2,
        }
    }
}

/// Anything that occupies an operand slot and therefore has a width.
pub trait Value: Copy {
    /// The width of this operand.
    spec fn spec_width(&self) -> Width;

    fn width(&self) -> (w: Width)
        ensures
            w == self.spec_width(),
    ;
}

/// One of the sixteen register selectors, tagged with the width of the view.
///
/// Selectors `0x0..=0xA` are the general registers: `R(Width::Word, n)` is the
/// whole cell `rN` and `R(Width::Byte, n)` is `rbN`, its low byte. The other
/// five selectors are the special registers, which are always a word wide.
#[derive(Debug, Clone, Copy, PartialEq, Eq, Structural)]
pub enum Register {
    RINFO,
    RIP,
    Flags,
    RSH,
    RSB,
    R(Width, u8),
}

/// Highest selector of a general register.
pub const LAST_GENERAL: u8 = 0xA;

impl Register {
    /// A register is well formed when it names one of the sixteen slots by its
    /// own variant: a general register has a selector of at most `0xA`.
    pub open spec fn wf(self) -> bool {
        match self {
            Register::R(_, idx) => idx <= LAST_GENERAL,
            _ => true,
        }
    }

    /// The 4-bit selector of the register's slot.
    pub open spec fn selector(self) -> u8 {
        match self {
            Register::R(_, idx) => idx,
            Register::RSB => 0xB,
            Register::RSH => 0xC,
            Register::Flags => 0xD,
            Register::RIP => 0xE,
            Register::RINFO => 0xF,
        }
    }

    /// The register that selector `nibble` denotes when the instruction asks
    /// for a view of `width`.
    pub open spec fn of_selector(width: Width, nibble: u8) -> Register {
        if nibble == 0xB {
            Register::RSB
        } else if nibble == 0xC {
            Register::RSH
        } else if nibble == 0xD {
            Register::Flags
        } else if nibble == 0xE {
            Register::RIP
        } else if nibble == 0xF {
            Register::RINFO
        } else {
            Register::R(width, nibble)
        }
    }

    /// The register that goes by `name`, which is in lower case.
    pub open spec fn spec_named(name: Seq<char>) -> Option<Register> {
        if name == "rinfo"@ {
            Some(Register::RINFO)
        } else if name == "rip"@ {
            Some(Register::RIP)
        } else if name == "flags"@ {
            Some(Register::Flags)
        } else if name == "rsh"@ {
            Some(Register::RSH)
        } else if name == "rsb"@ {
            Some(Register::RSB)
        } else if name == "rb0"@ {
            Some(Register::R(Width::Byte, 0))
        } else if name == "r0"@ {
            Some(Register::R(Width::Word, 0))
        } else if name == "rb1"@ {
            Some(Register::R(Width::Byte, 1))
        } else if name == "r1"@ {
            Some(Register::R(Width::Word, 1))
        } else if name == "rb2"@ {
            Some(Register::R(Width::Byte, 2))
        } else if name == "r2"@ {
            Some(Register::R(Width::Word, 2))
        } else if name == "rb3"@ {
            Some(Register::R(Width::Byte, 3))
        } else if name == "r3"@ {
            Some(Register::R(Width::Word, 3))
        } else if name == "rb4"@ {
            Some(Register::R(Width::Byte, 4))
        } else if name == "r4"@ {
            Some(Register::R(Width::Word, 4))
        } else if name == "rb5"@ {
            Some(Register::R(Width::Byte, 5))
        } else if name == "r5"@ {
            Some(Register::R(Width::Word, 5))
        } else if name == "rb6"@ {
            Some(Register::R(Width::Byte, 6))
        } else if name == "r6"@ {
            Some(Register::R(Width::Word, 6))
        } else if name == "rb7"@ {
            Some(Register::R(Width::Byte, 7))
        } else if name == "r7"@ {
            Some(Register::R(Width::Word, 7))
        } else if name == "rb8"@ {
            Some(Register::R(Width::Byte, 8))
        } else if name == "r8"@ {
            Some(Register::R(Width::Word, 8))
        } else if name == "rb9"@ {
            Some(Register::R(Width::Byte, 9))
        } else if name == "r9"@ {
            Some(Register::R(Width::Word, 9))
        } else if name == "rb10"@ {
            Some(Register::R(Width::Byte, 10))
        } else if name == "r10"@ {
            Some(Register::R(Width::Word, 10))
        } else {
            None
        }
    }

    /// The register that `name` denotes, in any case of letters.
    pub open spec fn spec_from(name: Seq<char>) -> Option<Register> {
        Register::spec_named(lowercase_of(name))
    }

    /// The register decoded from the low nibble of `byte`.
    pub open spec fn spec_from_src(width: Width, byte: u8) -> Register {
        Register::of_selector(width, byte % 16)
    }

    /// The register decoded from the high nibble of `byte`.
    pub open spec fn spec_from_dest(width: Width, byte: u8) -> Register {
        Register::of_selector(width, byte / 16)
    }

    /// The selector moved to the high nibble of a byte.
    pub open spec fn spec_as_dest(self) -> u8 {
        ((self.selector() % 16) * 16) as u8
    }

    /// Source selector in the low nibble, destination selector in the high one.
    ///
    /// Stated for well-formed registers; a selector wider than a nibble
    /// spills into the other half.
    pub open spec fn spec_as_src_with(self, dest: Register) -> u8 {
        if self.selector() < 16 {
            (self.selector() + dest.spec_as_dest()) as u8
        } else {
            self.selector() | dest.spec_as_dest()
        }
    }

    pub fn rinfo() -> (r: Self)
        ensures
            r == Register::RINFO,
    {
        Register::RINFO
    }

    pub fn rip() -> (r: Self)
        ensures
            r == Register::RIP,
    {
        Register::RIP
    }

    pub fn flags() -> (r: Self)
        ensures
            r == Register::Flags,
    {
        Register::Flags
    }

    pub fn rsh() -> (r: Self)
        ensures
            r == Register::RSH,
    {
        Register::RSH
    }

    pub fn rsb() -> (r: Self)
        ensures
            r == Register::RSB,
    {
        Register::RSB
    }

    fn r(width: Width, idx: u8) -> (r: Self)
        requires
            idx <= LAST_GENERAL,
        ensures
            r == Register::R(width, idx),
            r.wf(),
    {
        Register::R(width, idx)
    }

    pub fn rb0() -> (r: Self)
        ensures
            r == Register::R(Width::Byte, 0),
            r.wf(),
    {
        Self::r(Width::Byte, 0)
    }

    pub fn r0() -> (r: Self)
        ensures
            r == Register::R(Width::Word, 0),
            r.wf(),
    {
        Self::r(Width::Word, 0)
    }

    pub fn rb1() -> (r: Self)
        ensures
            r == Register::R(Width::Byte, 1),
            r.wf(),
    {
        Self::r(Width::Byte, 1)
    }

    pub fn r1() -> (r: Self)
        ensures
            r == Register::R(Width::Word, 1),
            r.wf(),
    {
        Self::r(Width::Word, 1)
    }

    pub fn rb2() -> (r: Self)
        ensures
            r == Register::R(Width::Byte, 2),
            r.wf(),
    {
        Self::r(Width::Byte, 2)
    }

    pub fn r2() -> (r: Self)
        ensures
            r == Register::R(Width::Word, 2),
            r.wf(),
    {
        Self::r(Width::Word, 2)
    }

    pub fn rb3() -> (r: Self)
        ensures
            r == Register::R(Width::Byte, 3),
            r.wf(),
    {
        Self::r(Width::Byte, 3)
    }

    pub fn r3() -> (r: Self)
        ensures
            r == Register::R(Width::Word, 3),
            r.wf(),
    {
        Self::r(Width::Word, 3)
    }

    pub fn rb4() -> (r: Self)
        ensures
            r == Register::R(Width::Byte, 4),
            r.wf(),
    {
        Self::r(Width::Byte, 4)
    }

    pub fn r4() -> (r: Self)
        ensures
            r == Register::R(Width::Word, 4),
            r.wf(),
    {
        Self::r(Width::Word, 4)
    }

    pub fn rb5() -> (r: Self)
        ensures
            r == Register::R(Width::Byte, 5),
            r.wf(),
    {
        Self::r(Width::Byte, 5)
    }

    pub fn r5() -> (r: Self)
        ensures
            r == Register::R(Width::Word, 5),
            r.wf(),
    {
        Self::r(Width::Word, 5)
    }

    pub fn rb6() -> (r: Self)
        ensures
            r == Register::R(Width::Byte, 6),
            r.wf(),
    {
        Self::r(Width::Byte, 6)
    }

    pub fn r6() -> (r: Self)
        ensures
            r == Register::R(Width::Word, 6),
            r.wf(),
    {
        Self::r(Width::Word, 6)
    }

    pub fn rb7() -> (r: Self)
        ensures
            r == Register::R(Width::Byte, 7),
            r.wf(),
    {
        Self::r(Width::Byte, 7)
    }

    pub fn r7() -> (r: Self)
        ensures
            r == Register::R(Width::Word, 7),
            r.wf(),
    {
        Self::r(Width::Word, 7)
    }

    pub fn rb8() -> (r: Self)
        ensures
            r == Register::R(Width::Byte, 8),
            r.wf(),
    {
        Self::r(Width::Byte, 8)
    }

    pub fn r8() -> (r: Self)
        ensures
            r == Register::R(Width::Word, 8),
            r.wf(),
    {
        Self::r(Width::Word, 8)
    }

    pub fn rb9() -> (r: Self)
        ensures
            r == Register::R(Width::Byte, 9),
            r.wf(),
    {
        Self::r(Width::Byte, 9)
    }

    pub fn r9() -> (r: Self)
        ensures
            r == Register::R(Width::Word, 9),
            r.wf(),
    {
        Self::r(Width::Word, 9)
    }

    pub fn rb10() -> (r: Self)
        ensures
            r == Register::R(Width::Byte, 10),
            r.wf(),
    {
        Self::r(Width::Byte, 10)
    }

    pub fn r10() -> (r: Self)
        ensures
            r == Register::R(Width::Word, 10),
            r.wf(),
    {
        Self::r(Width::Word, 10)
    }

    /// The register that goes by `name`, which is in lower case.
    pub fn from_lowercase(name: &str) -> (r: Option<Self>)
        ensures
            r == Register::spec_named(name@),
            r matches Some(reg) ==> reg.wf(),
    {
        if str_eq(name, "rinfo") {
            Some(Self::rinfo())
        } else if str_eq(name, "rip") {
            Some(Self::rip())
        } else if str_eq(name, "flags") {
            Some(Self::flags())
        } else if str_eq(name, "rsh") {
            Some(Self::rsh())
        } else if str_eq(name, "rsb") {
            Some(Self::rsb())
        } else if str_eq(name, "rb0") {
            Some(Self::rb0())
        } else if str_eq(name, "r0") {
            Some(Self::r0())
        } else if str_eq(name, "rb1") {
            Some(Self::rb1())
        } else if str_eq(name, "r1") {
            Some(Self::r1())
        } else if str_eq(name, "rb2") {
            Some(Self::rb2())
        } else if str_eq(name, "r2") {
            Some(Self::r2())
        } else if str_eq(name, "rb3") {
            Some(Self::rb3())
        } else if str_eq(name, "r3") {
            Some(Self::r3())
        } else if str_eq(name, "rb4") {
            Some(Self::rb4())
        } else if str_eq(name, "r4") {
            Some(Self::r4())
        } else if str_eq(name, "rb5") {
            Some(Self::rb5())
        } else if str_eq(name, "r5") {
            Some(Self::r5())
        } else if str_eq(name, "rb6") {
            Some(Self::rb6())
        } else if str_eq(name, "r6") {
            Some(Self::r6())
        } else if str_eq(name, "rb7") {
            Some(Self::rb7())
        } else if str_eq(name, "r7") {
            Some(Self::r7())
        } else if str_eq(name, "rb8") {
            Some(Self::rb8())
        } else if str_eq(name, "r8") {
            Some(Self::r8())
        } else if str_eq(name, "rb9") {
            Some(Self::rb9())
        } else if str_eq(name, "r9") {
            Some(Self::r9())
        } else if str_eq(name, "rb10") {
            Some(Self::rb10())
        } else if str_eq(name, "r10") {
            Some(Self::r10())
        } else {
            None
        }
    }

    /// The register that `s` denotes, in any case of letters.
    pub fn from(s: &str) -> (r: Option<Self>)
        ensures
            r == Register::spec_from(s@),
            r matches Some(reg) ==> reg.wf(),
    {
        let lower = s.to_lowercase();
        Self::from_lowercase(lower.as_str())
    }

    /// Decodes the register held in the low nibble of `byte`.
    pub fn from_src(width: Width, byte: u8) -> (r: Self)
        ensures
            r == Register::spec_from_src(width, byte),
            r.wf(),
            r.selector() == byte % 16,
    {
        let nibble: u8 = byte & 0xF;
        assert(byte & 0xF == byte % 16) by (bit_vector);
        if nibble == 0xB {
            Self::rsb()
        } else if nibble == 0xC {
            Self::rsh()
        } else if nibble == 0xD {
            Self::flags()
        } else if nibble == 0xE {
            Self::rip()
        } else if nibble == 0xF {
            Self::rinfo()
        } else {
            Self::r(width, nibble)
        }
    }

    /// Decodes the register held in the high nibble of `byte`.
    pub fn from_dest(width: Width, byte: u8) -> (r: Self)
        ensures
            r == Register::spec_from_dest(width, byte),
            r.wf(),
            r.selector() == byte / 16,
    {
        assert(byte >> 4 == byte / 16) by (bit_vector);
        Self::from_src(width, byte >> 4)
    }

    /// The selector, placed in the low nibble.
    pub fn as_src(&self) -> (b: u8)
        ensures
            b == self.selector(),
    {
        match self {
            Register::R(_, idx) => *idx,
            Register::RSB => 0xB,
            Register::RSH => 0xC,
            Register::Flags => 0xD,
            Register::RIP => 0xE,
            Register::RINFO => 0xF,
        }
    }

    /// The selector, placed in the high nibble.
    pub fn as_dest(&self) -> (b: u8)
        ensures
            b == self.spec_as_dest(),
    {
        let sel: u8 = self.as_src();
        assert(sel << 4 == ((sel % 16) * 16) as u8) by (bit_vector);
        sel << 4
    }

    /// Both selectors of a register-to-register move packed in one byte.
    pub fn as_src_with(&self, dest: &Self) -> (b: u8)
        ensures
            b == self.spec_as_src_with(*dest),
    {
        let lo: u8 = self.as_src();
        let hi: u8 = dest.as_dest();
        assert(lo < 16 && hi % 16 == 0 ==> lo | hi == (lo + hi) as u8) by (bit_vector);
        lo | hi
    }

    /// A selector of four bits always denotes a well-formed register.
    pub proof fn lemma_of_selector_wf(width: Width, nibble: u8)
        requires
            nibble < 16,
        ensures
            Register::of_selector(width, nibble).wf(),
            Register::of_selector(width, nibble).selector() == nibble,
    {
    }

    /// A well-formed register is recovered from the low nibble of any byte
    /// that carries its selector there.
    pub proof fn lemma_src_round_trip(self, dest: Register)
        requires
            self.wf(),
            dest.wf(),
        ensures
            Register::spec_from_src(self.spec_width(), self.spec_as_src_with(dest)) == self,
            Register::spec_from_dest(dest.spec_width(), self.spec_as_src_with(dest)) == dest,
            Register::spec_from_dest(dest.spec_width(), dest.spec_as_dest()) == dest,
            Register::spec_from_src(self.spec_width(), self.selector()) == self,
    {
    }
}

impl Value for Register {
    open spec fn spec_width(&self) -> Width {
        match self {
            Register::R(width, _) => *width,
            _ => Width::Word,
        }
    }

    fn width(&self) -> (w: Width) {
        match self {
            Register::RINFO | Register::RIP | Register::Flags | Register::RSH | Register::RSB => {
                Width::Word
            },
            Register::R(width, _) => *width,
        }
    }
}

/// The byte of `value` at position `idx`, counting from the low end.
pub open spec fn byte_of(value: u64, idx: u8) -> u8 {
    ((value >> ((idx as u64) * 8)) & 0xFF) as u8
}

/// The 16-bit word of `value` at position `idx`, counting from the low end.
pub open spec fn word_of(value: u64, idx: u8) -> u16 {
    ((value >> ((idx as u64) * 16)) & 0xFFFF) as u16
}

/// The lowest byte of a value.
pub open spec fn low_byte(value: u64) -> u8 {
    (value % 0x100) as u8
}

/// The second lowest byte of a value.
pub open spec fn high_byte(value: u64) -> u8 {
    ((value / 0x100) % 0x100) as u8
}

/// The lowest 16-bit word of a value.
pub open spec fn low_word(value: u64) -> u16 {
    (value % 0x1_0000) as u16
}

/// The two low bytes and the low word of a value, in arithmetic terms.
pub proof fn lemma_low_parts(value: u64)
    ensures
        byte_of(value, 0) == low_byte(value),
        byte_of(value, 1) == high_byte(value),
        word_of(value, 0) == low_word(value),
        low_word(value) == low_byte(value) + 0x100 * high_byte(value),
{
    assert((value >> 0) & 0xFF == value % 0x100) by (bit_vector);
    assert((value >> 8) & 0xFF == (value / 0x100) % 0x100) by (bit_vector);
    assert((value >> 0) & 0xFFFF == value % 0x1_0000) by (bit_vector);
    assert(value % 0x1_0000 == value % 0x100 + 0x100 * ((value / 0x100) % 0x100)) by (bit_vector);
}

/// A literal operand: a value together with the width of its slot.
///
/// Every immediate built by this module's constructors is well formed: its
/// value fits its width.
#[derive(Debug, Clone, Copy, PartialEq, Eq, Structural)]
pub struct Immediate {
    width: Width,
    value: u64,
}

impl Immediate {
    /// The number this immediate stands for.
    pub closed spec fn value(self) -> u64 {
        self.value
    }

    /// The immediate with the given width and value.
    pub closed spec fn spec_new(width: Width, value: u64) -> Immediate {
        Immediate { width, value }
    }

    /// The invariant of the type: the value fits the width.
    pub open spec fn wf(self) -> bool {
        self.spec_width().spec_fits(self.value())
    }

    /// An immediate is nothing more than its width and its value.
    pub broadcast proof fn lemma_parts(width: Width, value: u64)
        ensures
            (#[trigger] Immediate::spec_new(width, value)).spec_width() == width,
            Immediate::spec_new(width, value).value() == value,
    {
    }

    /// Two immediates of equal width and value are the same immediate.
    pub proof fn lemma_ext(self, other: Immediate)
        requires
            self.spec_width() == other.spec_width(),
            self.value() == other.value(),
        ensures
            self == other,
    {
    }

    /// Every immediate is `spec_new` of its own parts.
    pub broadcast proof fn lemma_rebuild(self)
        ensures
            #[trigger] Immediate::spec_new(self.spec_width(), self.value()) == self,
    {
    }

    /// Builds an immediate, rejecting a value that does not fit the width.
    pub fn new(width: Width, value: u64) -> (r: Result<Self, Error>)
        ensures
            width.spec_fits(value) ==> r == Ok::<Immediate, Error>(
                Immediate::spec_new(width, value),
            ),
            !width.spec_fits(value) ==> r == Err::<Immediate, Error>(
                Error::NumberOOB(value, width),
            ),
    {
        if width.fits(value) {
            Ok(Self { width, value })
        } else {
            Err(Error::NumberOOB(value, width))
        }
    }

    /// Builds an immediate from a value that the caller knows to fit.
    pub fn new_unchecked(width: Width, value: u64) -> (r: Self)
        requires
            width.spec_fits(value),
        ensures
            r == Immediate::spec_new(width, value),
            r.wf(),
    {
        Self { width, value }
    }

    pub fn byte(value: u8) -> (r: Self)
        ensures
            r == Immediate::spec_new(Width::Byte, value as u64),
            r.wf(),
    {
        Self { width: Width::Byte, value: value as u64 }
    }

    pub fn word(value: u16) -> (r: Self)
        ensures
            r == Immediate::spec_new(Width::Word, value as u64),
            r.wf(),
    {
        Self { width: Width::Word, value: value as u64 }
    }

    /// The byte at position `idx` of the value, counting from the low end.
    pub fn get_byte(&self, idx: u8) -> (b: u8)
        requires
            idx < 8,
        ensures
            b == byte_of(self.value(), idx),
            idx == 0 ==> b == low_byte(self.value()),
            idx == 1 ==> b == high_byte(self.value()),
    {
        proof {
            lemma_low_parts(self.value);
        }
        let shift: u64 = (idx as u64) * 8;
        ((self.value >> shift) & 0xFF) as u8
    }

    /// The word at position `idx` of the value, counting from the low end.
    pub fn get_word(&self, idx: u8) -> (w: u16)
        requires
            idx < 4,
        ensures
            w == word_of(self.value(), idx),
            idx == 0 ==> w == low_word(self.value()),
    {
        proof {
            lemma_low_parts(self.value);
        }
        let shift: u64 = (idx as u64) * 16;
        ((self.value >> shift) & 0xFFFF) as u16
    }

    pub fn get_value(&self) -> (v: u64)
        ensures
            v == self.value(),
    {
        self.value
    }
}

impl Value for Immediate {
    closed spec fn spec_width(&self) -> Width {
        self.width
    }

    fn width(&self) -> (w: Width) {
        self.width
    }
}

} // verus!

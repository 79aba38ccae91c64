//! The virtual machine: sixteen register cells and a 16-bit address space.
//!
//! The address space holds, from the bottom up, the ROM, the display, the
//! I/O ports and the RAM. The display and the I/O ports are reserved: nothing
//! is mapped there, and an instruction that touches them fails.

use vstd::prelude::*;
use vstd::array::*;
use crate::error::{result_view, Error, ErrorView};
use crate::instruction::decompile::imm_value;
use crate::instruction::Instruction;
use crate::value::{high_byte, low_byte, low_word, Immediate, Register, Value, Width};
use crate::vm::utils::{
    cell_byte, lemma_with_low_byte, lemma_word_bytes, with_byte, RegisterValue,
};

pub mod utils;

verus! {

/// First address after the ROM region, and first of the display.
pub const ROM_END: u16 = 0x6000;

/// First address after the display, and first of the I/O ports.
pub const DISPLAY_END: u16 = 0x7800;

/// First address of the RAM region.
pub const RAM_START: u16 = 0x8000;

/// Number of bytes fetched for one instruction: the longest encoding.
pub const FETCH_LEN: u16 = 6;

/// Whether `addr` lies in the ROM or in the RAM region.
pub open spec fn is_mapped(addr: u16) -> bool {
    addr < ROM_END || addr >= RAM_START
}

/// The address `offset` bytes after `addr`, wrapping at the top of memory.
pub open spec fn wrap_add(addr: u16, offset: int) -> u16 {
    ((addr + offset) % 0x1_0000) as u16
}

/// Wrapping at the top of memory is the wrapping addition of the machine.
pub proof fn lemma_wrap_add(addr: u16, offset: u16)
    ensures
        wrap_add(addr, offset as int) == addr.wrapping_add(offset),
{
    if addr + offset > 0xFFFF {
        assert((addr + offset) % 0x1_0000 == addr + offset - 0x1_0000);
    }
}

/// The failure reported for a reserved address.
pub open spec fn fault(addr: u16) -> ErrorView {
    if addr < DISPLAY_END {
        ErrorView::Misc("Display"@)
    } else {
        ErrorView::Misc("IO"@)
    }
}

/// Whether an access of `width` at `addr` stays in mapped memory; if not, the
/// failure of the first reserved address it would touch.
pub open spec fn check_span(addr: u16, width: Width) -> Result<(), ErrorView> {
    if !is_mapped(addr) {
        Err(fault(addr))
    } else if width == Width::Word && !is_mapped(wrap_add(addr, 1)) {
        Err(fault(wrap_add(addr, 1)))
    } else {
        Ok(())
    }
}

/// The machine as a mathematical value.
pub struct VmState {
    /// The sixteen cells, by selector.
    pub regs: Seq<u16>,
    /// The loaded image, mapped from address 0.
    pub rom: Seq<u8>,
    /// The RAM, mapped from `RAM_START`.
    pub ram: Seq<u8>,
}

impl VmState {
    pub open spec fn wf(self) -> bool {
        self.regs.len() == 16
    }

    /// The byte at a mapped address; zero where no storage backs it.
    pub open spec fn read_byte(self, addr: u16) -> u8 {
        if addr < ROM_END {
            if addr < self.rom.len() {
                self.rom[addr as int]
            } else {
                0
            }
        } else if addr >= RAM_START {
            if addr - RAM_START < self.ram.len() {
                self.ram[addr - RAM_START]
            } else {
                0
            }
        } else {
            0
        }
    }

    /// The machine after a byte is stored at a mapped address. A store that no
    /// storage backs is dropped. The ROM takes stores like the RAM does.
    pub open spec fn write_byte(self, addr: u16, value: u8) -> VmState {
        if addr < ROM_END {
            if addr < self.rom.len() {
                VmState { rom: self.rom.update(addr as int, value), ..self }
            } else {
                self
            }
        } else if addr >= RAM_START {
            if addr - RAM_START < self.ram.len() {
                VmState { ram: self.ram.update(addr - RAM_START, value), ..self }
            } else {
                self
            }
        } else {
            self
        }
    }

    /// The datum of `width` at `addr`: a word is read low byte first and its
    /// second address wraps.
    pub open spec fn read(self, addr: u16, width: Width) -> Immediate {
        match width {
            Width::Byte => Immediate::spec_new(Width::Byte, self.read_byte(addr) as u64),
            Width::Word => Immediate::spec_new(
                Width::Word,
                imm_value(self.read_byte(addr), self.read_byte(wrap_add(addr, 1))),
            ),
        }
    }

    /// The machine after `value` is stored at `addr`: one byte, or for a word
    /// two, low byte first, the second address wrapping.
    pub open spec fn write(self, addr: u16, value: Immediate) -> VmState {
        match value.spec_width() {
            Width::Byte => self.write_byte(addr, low_byte(value.value())),
            Width::Word => self.write_byte(addr, low_byte(value.value())).write_byte(
                wrap_add(addr, 1),
                high_byte(value.value()),
            ),
        }
    }

    /// `read` where the access is mapped, else its failure.
    pub open spec fn load(self, addr: u16, width: Width) -> Result<Immediate, ErrorView> {
        match check_span(addr, width) {
            Err(e) => Err(e),
            Ok(_) => Ok(self.read(addr, width)),
        }
    }

    /// `write` where the access is mapped, else its failure.
    pub open spec fn store(self, addr: u16, value: Immediate) -> Result<VmState, ErrorView> {
        match check_span(addr, value.spec_width()) {
            Err(e) => Err(e),
            Ok(_) => Ok(self.write(addr, value)),
        }
    }

    /// The cell of a register.
    pub open spec fn cell(self, reg: Register) -> u16 {
        self.regs[reg.selector() as int]
    }

    /// The machine with the cell of `reg` set to `cell`.
    pub open spec fn with_cell(self, reg: Register, cell: u16) -> VmState {
        VmState { regs: self.regs.update(reg.selector() as int, cell), ..self }
    }

    /// What a register holds, seen at the register's own width.
    pub open spec fn read_reg(self, reg: Register) -> Immediate {
        match reg.spec_width() {
            Width::Byte => Immediate::spec_new(Width::Byte, cell_byte(self.cell(reg), 0) as u64),
            Width::Word => Immediate::spec_new(Width::Word, self.cell(reg) as u64),
        }
    }

    /// The machine after `value` is written to `reg`. The width of the value
    /// decides: a byte replaces the low half of the cell, a word all of it.
    pub open spec fn write_reg(self, reg: Register, value: Immediate) -> VmState {
        match value.spec_width() {
            Width::Byte => self.with_cell(
                reg,
                with_byte(self.cell(reg), 0, low_byte(value.value())),
            ),
            Width::Word => self.with_cell(reg, low_word(value.value())),
        }
    }

    /// The machine after `value` is stored where the word at `pointer` points.
    pub open spec fn store_through(self, pointer: u16, value: Immediate) -> Result<
        VmState,
        ErrorView,
    > {
        match self.load(pointer, Width::Word) {
            Err(e) => Err(e),
            Ok(target) => self.store(low_word(target.value()), value),
        }
    }

    /// What one instruction does to the machine, or why it fails. A failing
    /// instruction changes nothing.
    ///
    /// A move out of a pointer into a pointer carries a single byte. Where the
    /// destination is an immediate pointer and the source a pointer too, the
    /// destination names the word that holds the target address.
    pub open spec fn execute(self, instr: Instruction) -> Result<VmState, ErrorView> {
        match instr {
            Instruction::Nop => Ok(self),
            Instruction::MovI2R(value, dest) => Ok(self.write_reg(dest, value)),
            Instruction::MovI2RP(value, dest) => self.store(self.cell(dest), value),
            Instruction::MovI2IP(value, dest) => self.store(low_word(dest.value()), value),
            Instruction::MovIP2R(src, dest) => match self.load(
                low_word(src.value()),
                dest.spec_width(),
            ) {
                Err(e) => Err(e),
                Ok(value) => Ok(self.write_reg(dest, value)),
            },
            Instruction::MovIP2RP(src, dest) => match self.load(
                low_word(src.value()),
                Width::Byte,
            ) {
                Err(e) => Err(e),
                Ok(value) => self.store(self.cell(dest), value),
            },
            Instruction::MovIP2IP(src, dest) => match self.load(
                low_word(src.value()),
                Width::Byte,
            ) {
                Err(e) => Err(e),
                Ok(value) => self.store_through(low_word(dest.value()), value),
            },
            Instruction::MovR2R(src, dest) => Ok(self.write_reg(dest, self.read_reg(src))),
            Instruction::MovR2RP(src, dest) => self.store(self.cell(dest), self.read_reg(src)),
            Instruction::MovR2IP(src, dest) => self.store(
                low_word(dest.value()),
                self.read_reg(src),
            ),
            Instruction::MovRP2R(src, dest) => match self.load(self.cell(src), dest.spec_width()) {
                Err(e) => Err(e),
                Ok(value) => Ok(self.write_reg(dest, value)),
            },
            Instruction::MovRP2RP(src, dest) => match self.load(self.cell(src), Width::Byte) {
                Err(e) => Err(e),
                Ok(value) => self.store(self.cell(dest), value),
            },
            Instruction::MovRP2IP(src, dest) => match self.load(self.cell(src), Width::Byte) {
                Err(e) => Err(e),
                Ok(value) => self.store_through(low_word(dest.value()), value),
            },
        }
    }

    /// The instruction pointer.
    pub open spec fn rip(self) -> u16 {
        self.cell(Register::RIP)
    }

    /// Whether all the bytes fetched for the next instruction are mapped; if
    /// not, the failure of the first that is not.
    pub open spec fn check_fetch(self, upto: int) -> Result<(), ErrorView>
        decreases upto,
    {
        if upto <= 0 {
            Ok(())
        } else {
            match self.check_fetch(upto - 1) {
                Err(e) => Err(e),
                Ok(_) => if is_mapped(wrap_add(self.rip(), upto - 1)) {
                    Ok(())
                } else {
                    Err(fault(wrap_add(self.rip(), upto - 1)))
                },
            }
        }
    }

    /// The bytes fetched for the next instruction.
    pub open spec fn fetch(self) -> Seq<u8> {
        Seq::new(FETCH_LEN as nat, |i: int| self.read_byte(wrap_add(self.rip(), i)))
    }

    /// One step of the machine: the state it leaves and how it ended.
    ///
    /// The step fetches six bytes at the instruction pointer, decodes one
    /// instruction, moves the pointer past it, wrapping, and executes it. A
    /// failed fetch or decode leaves the machine as it was; an instruction
    /// that fails leaves it with the pointer moved.
    pub open spec fn step(self) -> (VmState, Result<(), ErrorView>) {
        match self.check_fetch(FETCH_LEN as int) {
            Err(e) => (self, Err(e)),
            Ok(_) => match Instruction::spec_decompile(self.fetch()) {
                Err(e) => (self, Err(e@)),
                Ok(instr) => {
                    let moved = self.with_cell(
                        Register::RIP,
                        wrap_add(self.rip(), instr.spec_compile().len() as int),
                    );
                    match moved.execute(instr) {
                        Err(e) => (moved, Err(e)),
                        Ok(after) => (after, Ok(())),
                    }
                },
            },
        }
    }

    /// Writing a byte to a register keeps the upper byte of its cell and sets
    /// the lower; writing a word sets both bytes.
    pub proof fn lemma_write_reg(self, reg: Register, value: Immediate)
        requires
            self.wf(),
            reg.wf(),
        ensures
            value.spec_width() == Width::Byte ==> {
                &&& cell_byte(self.write_reg(reg, value).cell(reg), 1) == cell_byte(
                    self.cell(reg),
                    1,
                )
                &&& cell_byte(self.write_reg(reg, value).cell(reg), 0) == low_byte(value.value())
            },
            value.spec_width() == Width::Word ==> {
                &&& cell_byte(self.write_reg(reg, value).cell(reg), 1) == high_byte(value.value())
                &&& cell_byte(self.write_reg(reg, value).cell(reg), 0) == low_byte(value.value())
            },
            forall|other: Register|
                other.wf() && other.selector() != reg.selector() ==> self.write_reg(
                    reg,
                    value,
                ).cell(other) == self.cell(other),
            self.write_reg(reg, value).rom == self.rom,
            self.write_reg(reg, value).ram == self.ram,
    {
        let after = self.write_reg(reg, value);
        let at = reg.selector() as int;
        assert(0 <= at < 16);
        match value.spec_width() {
            Width::Byte => {
                lemma_with_low_byte(self.cell(reg), low_byte(value.value()));
                assert(after.cell(reg) == with_byte(self.cell(reg), 0, low_byte(value.value())));
            },
            Width::Word => {
                lemma_word_bytes(value.value());
                assert(after.cell(reg) == low_word(value.value()));
            },
        }
        assert forall|other: Register|
            other.wf() && other.selector() != reg.selector() implies after.cell(other)
            == self.cell(other) by {
            assert(0 <= other.selector() < 16);
        }
    }
}

/// The machine: the register file, the ROM image and the RAM.
pub struct VM {
    regs: [RegisterValue; 16],
    rom: Vec<u8>,
    ram: Vec<u8>,
}

impl View for VM {
    type V = VmState;

    closed spec fn view(&self) -> VmState {
        VmState {
            regs: Seq::new(16, |i: int| self.regs@[i].0),
            rom: self.rom@,
            ram: self.ram@,
        }
    }
}

/// The failure for the reserved address `addr`.
fn fault_at(addr: u16) -> (e: Error)
    requires
        !is_mapped(addr),
    ensures
        e@ == fault(addr),
{
    if addr < DISPLAY_END {
        Error::Misc("Display".to_owned())
    } else {
        Error::Misc("IO".to_owned())
    }
}

/// Tests that an access of `width` at `addr` stays in mapped memory.
fn span_check(addr: u16, width: Width) -> (r: Result<(), Error>)
    ensures
        result_view(r) == check_span(addr, width),
{
    if !VM::is_mapped(addr) {
        return Err(fault_at(addr));
    }
    let next: u16 = addr.wrapping_add(1);
    proof {
        lemma_wrap_add(addr, 1);
    }
    match width {
        Width::Byte => Ok(()),
        Width::Word => {
            if !VM::is_mapped(next) {
                Err(fault_at(next))
            } else {
                Ok(())
            }
        },
    }
}

impl VM {
    /// A machine with `rom` loaded, `ram_size` bytes of zeroed RAM and all
    /// registers zero.
    pub fn new(rom: Vec<u8>, ram_size: usize) -> (vm: Self)
        ensures
            vm@.wf(),
            vm@.regs == Seq::new(16, |i: int| 0u16),
            vm@.rom == rom@,
            vm@.ram == Seq::new(ram_size as nat, |i: int| 0u8),
    {
        let ram: Vec<u8> = vec![0u8; ram_size];
        let vm = Self { regs: [RegisterValue(0);16], rom, ram };
        assert(vm@.regs =~= Seq::new(16, |i: int| 0u16));
        assert(vm@.ram =~= Seq::new(ram_size as nat, |i: int| 0u8));
        vm
    }

    /// Restarts the machine: the instruction pointer goes to zero and the RAM
    /// is cleared. The other registers and the ROM stay.
    pub fn boot(&mut self)
        ensures
            final(self)@.wf(),
            final(self)@.regs == old(self)@.regs.update(Register::RIP.selector() as int, 0u16),
            final(self)@.rom == old(self)@.rom,
            final(self)@.ram == Seq::new(old(self)@.ram.len(), |i: int| 0u8),
    {
        self.set_reg_value(&Register::rip(), 0);
        let size: usize = self.ram.len();
        self.ram = vec![0u8; size];
        assert(self@.ram =~= Seq::new(old(self)@.ram.len(), |i: int| 0u8));
    }

    /// The sixteen cells, by selector.
    pub fn regs(&self) -> (cells: Vec<u16>)
        ensures
            cells@ == self@.regs,
    {
        let mut cells: Vec<u16> = Vec::new();
        let mut i: usize = 0;
        while i < 16
            invariant
                i <= 16,
                cells@.len() == i,
                forall|k: int| 0 <= k < i ==> cells@[k] == self.regs@[k].0,
            decreases 16 - i,
        {
            cells.push(self.regs[i].0);
            i += 1;
        }
        assert(cells@ =~= self@.regs);
        cells
    }

    /// Whether `addr` lies in the ROM or in the RAM region.
    pub fn is_mapped(addr: u16) -> (b: bool)
        ensures
            b == is_mapped(addr),
    {
        addr < ROM_END || addr >= RAM_START
    }

    /// Runs the instruction at the instruction pointer.
    pub fn execute_next(&mut self) -> (r: Result<(), Error>)
        ensures
            final(self)@ == old(self)@.step().0,
            result_view(r) == old(self)@.step().1,
            final(self)@.wf(),
    {
        proof {
            self.lemma_view();
        }
        let rip: u16 = self.pointer(&Register::rip());
        let bytes = self.fetch()?;
        let instr = match Instruction::decompile(bytes.as_slice()) {
            Ok(instr) => instr,
            Err(e) => {
                return Err(e);
            },
        };
        proof {
            lemma_wrap_add(rip, instr.spec_compile().len() as u16);
        }
        self.set_reg_value(&Register::rip(), rip.wrapping_add(instr.len()));
        self.execute(&instr)
    }

    /// Fetches the bytes of the next instruction.
    fn fetch(&self) -> (r: Result<Vec<u8>, Error>)
        ensures
            match self@.check_fetch(FETCH_LEN as int) {
                Ok(_) => r matches Ok(bytes) && bytes@ == self@.fetch(),
                Err(e) => r matches Err(err) && err@ == e,
            },
    {
        let rip: u16 = self.pointer(&Register::rip());
        let ghost st = self@;
        let mut bytes: Vec<u8> = Vec::new();
        let mut offset: u16 = 0;
        while offset < FETCH_LEN
            invariant
                offset <= FETCH_LEN,
                st == self@,
                rip == st.rip(),
                st.check_fetch(offset as int) is Ok,
                bytes@.len() == offset,
                forall|k: int| 0 <= k < offset ==> bytes@[k] == st.read_byte(wrap_add(rip, k)),
            decreases FETCH_LEN - offset,
        {
            let addr: u16 = rip.wrapping_add(offset);
            proof {
                lemma_wrap_add(rip, offset);
            }
            if !Self::is_mapped(addr) {
                proof {
                    Self::lemma_check_fetch_fails(st, offset as int + 1, FETCH_LEN as int);
                }
                return Err(fault_at(addr));
            }
            let b: u8 = self.get_mem_byte(addr);
            bytes.push(b);
            offset += 1;
        }
        assert(bytes@ =~= st.fetch());
        Ok(bytes)
    }

    /// Once some fetched byte is reserved, the fetch fails with the failure of
    /// the first such byte, however many bytes are asked for.
    proof fn lemma_check_fetch_fails(st: VmState, at: int, upto: int)
        requires
            1 <= at <= upto,
            st.check_fetch(at - 1) is Ok,
            !is_mapped(wrap_add(st.rip(), at - 1)),
        ensures
            st.check_fetch(upto) == Err::<(), ErrorView>(fault(wrap_add(st.rip(), at - 1))),
        decreases upto - at,
    {
        if at < upto {
            Self::lemma_check_fetch_fails(st, at, upto - 1);
        }
    }

    /// Carries out one instruction.
    ///
    /// On success the machine is what `VmState::execute` says. An instruction
    /// that touches a reserved address fails and leaves the machine as it was.
    pub fn execute(&mut self, instr: &Instruction) -> (r: Result<(), Error>)
        requires
            instr.wf(),
        ensures
            final(self)@.wf(),
            match old(self)@.execute(*instr) {
                Ok(after) => r is Ok && final(self)@ == after,
                Err(e) => result_view(r) == Err::<(), ErrorView>(e) && final(self)@ == old(self)@,
            },
    {
        proof {
            self.lemma_view();
        }
        match instr {
            Instruction::Nop => {},
            Instruction::MovI2R(value, dest) => self.set_reg(dest, value),
            Instruction::MovI2RP(value, dest) => {
                let addr: u16 = self.pointer(dest);
                self.store(addr, value)?;
            },
            Instruction::MovI2IP(value, dest) => {
                self.store(dest.get_word(0), value)?;
            },
            Instruction::MovIP2R(src, dest) => {
                let value = self.load(src.get_word(0), dest.width())?;
                self.set_reg(dest, &value);
            },
            Instruction::MovIP2RP(src, dest) => {
                let value = self.load(src.get_word(0), Width::Byte)?;
                let addr: u16 = self.pointer(dest);
                self.store(addr, &value)?;
            },
            Instruction::MovIP2IP(src, dest) => {
                let value = self.load(src.get_word(0), Width::Byte)?;
                let addr: u16 = self.load(dest.get_word(0), Width::Word)?.get_word(0);
                self.store(addr, &value)?;
            },
            Instruction::MovR2R(src, dest) => {
                let value = self.get_reg(src);
                self.set_reg(dest, &value);
            },
            Instruction::MovR2RP(src, dest) => {
                let value = self.get_reg(src);
                let addr: u16 = self.pointer(dest);
                self.store(addr, &value)?;
            },
            Instruction::MovR2IP(src, dest) => {
                let value = self.get_reg(src);
                self.store(dest.get_word(0), &value)?;
            },
            Instruction::MovRP2R(src, dest) => {
                let addr: u16 = self.pointer(src);
                let value = self.load(addr, dest.width())?;
                self.set_reg(dest, &value);
            },
            Instruction::MovRP2RP(src, dest) => {
                let from: u16 = self.pointer(src);
                let value = self.load(from, Width::Byte)?;
                let addr: u16 = self.pointer(dest);
                self.store(addr, &value)?;
            },
            Instruction::MovRP2IP(src, dest) => {
                let from: u16 = self.pointer(src);
                let value = self.load(from, Width::Byte)?;
                let addr: u16 = self.load(dest.get_word(0), Width::Word)?.get_word(0);
                self.store(addr, &value)?;
            },
        };
        Ok(())
    }

    /// The view always has sixteen cells.
    pub proof fn lemma_view(&self)
        ensures
            self@.wf(),
    {
    }

    /// The address that a register holds: its whole cell.
    fn pointer(&self, reg: &Register) -> (addr: u16)
        requires
            reg.wf(),
        ensures
            addr == self@.cell(*reg),
    {
        self.regs[reg.as_src() as usize].get_word(0)
    }

    /// Reads memory where the access is mapped.
    fn load(&self, addr: u16, width: Width) -> (r: Result<Immediate, Error>)
        ensures
            result_view(r) == self@.load(addr, width),
            r matches Ok(value) ==> value.wf(),
    {
        span_check(addr, width)?;
        Ok(self.get_mem(addr, width))
    }

    /// Writes memory where the access is mapped.
    fn store(&mut self, addr: u16, value: &Immediate) -> (r: Result<(), Error>)
        ensures
            final(self)@.wf(),
            match old(self)@.store(addr, *value) {
                Ok(after) => r is Ok && final(self)@ == after,
                Err(e) => result_view(r) == Err::<(), ErrorView>(e) && final(self)@ == old(self)@,
            },
    {
        proof {
            self.lemma_view();
        }
        span_check(addr, value.width())?;
        self.set_mem(addr, value);
        Ok(())
    }

    /// Writes `value` to a register. The width of the value decides how much
    /// of the cell is written.
    pub fn set_reg(&mut self, reg: &Register, value: &Immediate)
        requires
            reg.wf(),
        ensures
            final(self)@ == old(self)@.write_reg(*reg, *value),
            final(self)@.wf(),
    {
        let idx: usize = reg.as_src() as usize;
        let mut cell: RegisterValue = self.regs[idx];
        match value.width() {
            Width::Byte => cell.set_byte(0, value.get_byte(0)),
            Width::Word => cell.set_word(0, value.get_word(0)),
        };
        self.regs[idx] = cell;
        assert(self@.regs =~= old(self)@.write_reg(*reg, *value).regs);
    }

    /// Sets the whole cell of a register.
    pub fn set_reg_value(&mut self, reg: &Register, value: u16)
        requires
            reg.wf(),
        ensures
            final(self)@ == old(self)@.with_cell(*reg, value),
            final(self)@.wf(),
    {
        self.regs[reg.as_src() as usize] = value.into();
        assert(self@.regs =~= old(self)@.with_cell(*reg, value).regs);
    }

    /// Reads a register at its own width.
    pub fn get_reg(&self, reg: &Register) -> (value: Immediate)
        requires
            reg.wf(),
        ensures
            value == self@.read_reg(*reg),
            value.wf(),
    {
        broadcast use Immediate::lemma_parts;

        let cell: RegisterValue = self.regs[reg.as_src() as usize];
        match reg.width() {
            Width::Byte => Immediate::byte(cell.get_byte(0)),
            Width::Word => Immediate::word(cell.get_word(0)),
        }
    }

    /// Stores `value` at `addr`, low byte first.
    pub fn set_mem(&mut self, addr: u16, value: &Immediate)
        requires
            check_span(addr, value.spec_width()) is Ok,
        ensures
            final(self)@ == old(self)@.write(addr, *value),
            final(self)@.wf(),
    {
        match value.width() {
            Width::Byte => self.set_mem_byte(addr, value.get_byte(0)),
            Width::Word => {
                proof {
                    lemma_wrap_add(addr, 1);
                }
                self.set_mem_byte(addr, value.get_byte(0));
                self.set_mem_byte(addr.wrapping_add(1), value.get_byte(1));
            },
        }
    }

    /// Stores one byte at a mapped address. A store outside the loaded image,
    /// or outside the RAM that the machine has, is dropped.
    pub fn set_mem_byte(&mut self, addr: u16, value: u8)
        requires
            is_mapped(addr),
        ensures
            final(self)@ == old(self)@.write_byte(addr, value),
            final(self)@.wf(),
    {
        if addr < ROM_END {
            if (addr as usize) < self.rom.len() {
                self.rom.set(addr as usize, value);
            }
        } else {
            let offset: usize = (addr - RAM_START) as usize;
            if offset < self.ram.len() {
                self.ram.set(offset, value);
            }
        }
    }

    /// Reads the datum of `width` at `addr`.
    pub fn get_mem(&self, addr: u16, width: Width) -> (value: Immediate)
        requires
            check_span(addr, width) is Ok,
        ensures
            value == self@.read(addr, width),
            value.wf(),
    {
        broadcast use Immediate::lemma_parts;

        match width {
            Width::Byte => Immediate::byte(self.get_mem_byte(addr)),
            Width::Word => {
                proof {
                    lemma_wrap_add(addr, 1);
                }
                let lo: u8 = self.get_mem_byte(addr);
                let hi: u8 = self.get_mem_byte(addr.wrapping_add(1));
                assert((lo as u16) | ((hi as u16) << 8) == lo as u16 + 0x100 * (hi as u16))
                    by (bit_vector);
                Immediate::word((lo as u16) | ((hi as u16) << 8))
            },
        }
    }

    /// Reads one byte at a mapped address: zero where no storage backs it.
    pub fn get_mem_byte(&self, addr: u16) -> (b: u8)
        requires
            is_mapped(addr),
        ensures
            b == self@.read_byte(addr),
    {
        if addr < ROM_END {
            if (addr as usize) < self.rom.len() {
                self.rom[addr as usize]
            } else {
                0
            }
        } else {
            let offset: usize = (addr - RAM_START) as usize;
            if offset < self.ram.len() {
                self.ram[offset]
            } else {
                0
            }
        }
    }
}

} // verus!

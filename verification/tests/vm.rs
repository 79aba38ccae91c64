use simpleasm::{compile, Error, Immediate, Instruction, Register, RegisterValue, Width, VM};

fn run(code: Vec<Result<Instruction, Error>>, reps: usize) -> VM {
    let rom = code.into_iter().flat_map(|instr| instr.unwrap().compile()).collect();
    let mut vm = VM::new(rom, 0x8000);
    vm.boot();
    for _ in 0..reps {
        vm.execute_next().unwrap();
    }
    vm
}

fn check(vm: &VM, regs: [u16; 16], mem: &[(u16, u8)]) {
    assert_eq!(vm.regs(), regs);
    for (addr, value) in mem.iter() {
        assert_eq!(vm.get_mem_byte(*addr), *value, "at {addr:#06X}");
    }
}

#[test]
fn vm_nop() {
    let vm = run(vec![Instruction::nop()], 1);
    check(&vm, [0, 0, 0, 0, 0, 0, 0, 0, 0, 0, 0, 0, 0, 0, 0x02, 0], &[]);
}

#[test]
fn vm_movi2r() {
    let vm = run(vec![
        Instruction::movi2r(Immediate::byte(0x60), Register::rb0()),
        Instruction::movi2r(Immediate::word(0x600D), Register::r1()),
    ], 2);
    check(&vm, [0x60, 0x600D, 0, 0, 0, 0, 0, 0, 0, 0, 0, 0, 0, 0, 0x08, 0], &[]);
}

#[test]
fn vm_movi2rp() {
    let vm = run(vec![
        Instruction::movi2r(Immediate::word(0x8000), Register::r0()),
        Instruction::movi2r(Immediate::word(0x8002), Register::r1()),
        Instruction::movi2rp(Immediate::byte(0x60), Register::r0()),
        Instruction::movi2rp(Immediate::word(0x600D), Register::r1()),
    ], 4);
    check(
        &vm,
        [0x8000, 0x8002, 0, 0, 0, 0, 0, 0, 0, 0, 0, 0, 0, 0, 0x10, 0],
        &[(0x8000, 0x60), (0x8001, 0x00), (0x8002, 0x0D), (0x8003, 0x60)],
    );
}

#[test]
fn vm_movi2ip() {
    let vm = run(vec![
        Instruction::movi2ip(Immediate::byte(0x60), Immediate::word(0xF337)),
        Instruction::movi2ip(Immediate::word(0x600D), Immediate::word(0xF335)),
    ], 2);
    check(
        &vm,
        [0, 0, 0, 0, 0, 0, 0, 0, 0, 0, 0, 0, 0, 0, 0x0C, 0],
        &[(0xF335, 0x0D), (0xF336, 0x60), (0xF337, 0x60)],
    );
}

#[test]
fn vm_movip2r() {
    let vm = run(vec![
        Instruction::movi2ip(Immediate::word(0x600D), Immediate::word(0xF337)),
        Instruction::movip2r(Immediate::word(0xF337), Register::rb0()),
        Instruction::movip2r(Immediate::word(0xF337), Register::r1()),
    ], 3);
    check(&vm, [0x0D, 0x600D, 0, 0, 0, 0, 0, 0, 0, 0, 0, 0, 0, 0, 0xE, 0], &[]);
}

#[test]
fn vm_movip2rp() {
    let vm = run(vec![
        Instruction::movi2ip(Immediate::word(0x600D), Immediate::word(0xF337)),
        Instruction::movi2r(Immediate::word(0xF338), Register::r0()),
        Instruction::movip2rp(Immediate::word(0xF337), Register::r0()),
    ], 3);
    check(
        &vm,
        [0xF338, 0, 0, 0, 0, 0, 0, 0, 0, 0, 0, 0, 0, 0, 0xE, 0],
        &[(0xF337, 0x0D), (0xF338, 0x0D)],
    );
}

#[test]
fn vm_movip2ip() {
    let vm = run(vec![
        Instruction::movi2ip(Immediate::word(0x600D), Immediate::word(0xF337)),
        Instruction::movip2ip(Immediate::word(0xF337), Immediate::word(0xF338)),
    ], 2);
    check(
        &vm,
        [0, 0, 0, 0, 0, 0, 0, 0, 0, 0, 0, 0, 0, 0, 0xC, 0],
        &[(0xF337, 0x0D), (0xF338, 0x60)],
    );
}

#[test]
fn vm_movr2r() {
    let vm = run(vec![
        Instruction::movi2r(Immediate::byte(0x60), Register::rb0()),
        Instruction::movi2r(Immediate::word(0x600D), Register::r1()),
        Instruction::movi2r(Immediate::word(0xF337), Register::r2()),
        Instruction::movi2r(Immediate::word(0xB007), Register::r3()),
        Instruction::movr2r(Register::rb0(), Register::rb0()),
        Instruction::movr2r(Register::r1(), Register::r1()),
        Instruction::movr2r(Register::rb0(), Register::rb2()),
        Instruction::movr2r(Register::r1(), Register::r3()),
    ], 8);
    check(&vm, [0x60, 0x600D, 0xF360, 0x600D, 0, 0, 0, 0, 0, 0, 0, 0, 0, 0, 0x18, 0], &[]);
}

#[test]
fn vm_movr2rp() {
    let vm = run(vec![
        Instruction::movi2r(Immediate::word(0x600D), Register::r0()),
        Instruction::movi2r(Immediate::word(0xF337), Register::r1()),
        Instruction::movi2r(Immediate::word(0xF338), Register::r2()),
        Instruction::movr2rp(Register::rb0(), Register::r1()),
        Instruction::movr2rp(Register::r0(), Register::r2()),
    ], 5);
    check(
        &vm,
        [0x600D, 0xF337, 0xF338, 0, 0, 0, 0, 0, 0, 0, 0, 0, 0, 0, 0x10, 0],
        &[(0xF337, 0x0D), (0xF338, 0x0D), (0xF339, 0x60)],
    );
}

#[test]
fn vm_movr2ip() {
    let vm = run(vec![
        Instruction::movi2r(Immediate::word(0x600D), Register::r0()),
        Instruction::movr2ip(Register::rb0(), Immediate::word(0xF337)),
        Instruction::movr2ip(Register::r0(), Immediate::word(0xF338)),
    ], 3);
    check(
        &vm,
        [0x600D, 0, 0, 0, 0, 0, 0, 0, 0, 0, 0, 0, 0, 0, 0xC, 0],
        &[(0xF337, 0x0D), (0xF338, 0x0D), (0xF339, 0x60)],
    );
}

#[test]
fn vm_movrp2r() {
    let vm = run(vec![
        Instruction::movi2r(Immediate::word(0xF337), Register::r0()),
        Instruction::movi2ip(Immediate::word(0x600D), Immediate::word(0xF337)),
        Instruction::movrp2r(Register::r0(), Register::rb1()),
        Instruction::movrp2r(Register::r0(), Register::r2()),
    ], 4);
    check(
        &vm,
        [0xF337, 0x0D, 0x600D, 0, 0, 0, 0, 0, 0, 0, 0, 0, 0, 0, 0xE, 0],
        &[(0xF337, 0x0D), (0xF338, 0x60)],
    );
}

#[test]
fn vm_movrp2rp() {
    let vm = run(vec![
        Instruction::movi2r(Immediate::word(0xF337), Register::r0()),
        Instruction::movi2r(Immediate::word(0xF339), Register::r1()),
        Instruction::movi2ip(Immediate::word(0x600D), Immediate::word(0xF337)),
        Instruction::movrp2rp(Register::r0(), Register::r1()),
    ], 4);
    check(
        &vm,
        [0xF337, 0xF339, 0, 0, 0, 0, 0, 0, 0, 0, 0, 0, 0, 0, 0x10, 0],
        &[(0xF337, 0x0D), (0xF338, 0x60), (0xF339, 0x0D), (0xF33A, 0)],
    );
}

#[test]
fn vm_movrp2ip() {
    let vm = run(vec![
        Instruction::movi2r(Immediate::word(0xF337), Register::r0()),
        Instruction::movi2ip(Immediate::word(0xF339), Immediate::word(0xF337)),
        Instruction::movrp2ip(Register::r0(), Immediate::word(0xF337)),
    ], 3);
    check(
        &vm,
        [0xF337, 0, 0, 0, 0, 0, 0, 0, 0, 0, 0, 0, 0, 0, 0x0E, 0],
        &[(0xF337, 0x39), (0xF338, 0xF3), (0xF339, 0x39), (0xF33A, 0)],
    );
}

#[test]
fn one_step_of_an_assembled_rom() {
    let rom = compile("mov 0x600D, r0").unwrap();
    let mut vm = VM::new(rom, 0x8000);
    vm.boot();
    vm.execute_next().unwrap();
    let regs = vm.regs();
    assert_eq!(regs[0], 0x600D);
    assert_eq!(regs[0xE], 0x04);
}

#[test]
fn four_steps_write_ram() {
    let rom = compile("mov 0x8000, r0\nmov 0x8002, r1\nmov 0x60, [r0]\nmov 0x600D, [r1]").unwrap();
    let mut vm = VM::new(rom, 0x8000);
    vm.boot();
    for _ in 0..4 {
        vm.execute_next().unwrap();
    }
    assert_eq!(vm.get_mem_byte(0x8000), 0x60);
    assert_eq!(vm.get_mem_byte(0x8001), 0x00);
    assert_eq!(vm.get_mem_byte(0x8002), 0x0D);
    assert_eq!(vm.get_mem_byte(0x8003), 0x60);
    let regs = vm.regs();
    assert_eq!(regs[0], 0x8000);
    assert_eq!(regs[1], 0x8002);
}

#[test]
fn load_from_ram_set_ahead_of_time() {
    let rom = compile("mov [0xF337], r0").unwrap();
    let mut vm = VM::new(rom, 0x8000);
    vm.boot();
    vm.set_mem_byte(0xF337, 0x0D);
    vm.set_mem_byte(0xF338, 0x60);
    vm.execute_next().unwrap();
    assert_eq!(vm.regs()[0], 0x600D);
}

#[test]
fn byte_write_keeps_the_upper_byte() {
    let mut vm = VM::new(vec![], 0);
    vm.set_reg_value(&Register::r3(), 0xABCD);
    vm.set_reg(&Register::rb3(), &Immediate::byte(0x12));
    assert_eq!(vm.regs()[3], 0xAB12);
    vm.set_reg(&Register::r3(), &Immediate::word(0x0034));
    assert_eq!(vm.regs()[3], 0x0034);
    assert_eq!(vm.get_reg(&Register::rb3()), Immediate::byte(0x34));
    vm.set_reg_value(&Register::r3(), 0xABCD);
    assert_eq!(vm.get_reg(&Register::rb3()), Immediate::byte(0xCD));
    assert_eq!(vm.get_reg(&Register::r3()), Immediate::word(0xABCD));
}

#[test]
fn register_cell_bytes_and_words() {
    let mut cell = RegisterValue(0xABCD);
    assert_eq!(cell.get_byte(0), 0xCD);
    assert_eq!(cell.get_byte(1), 0xAB);
    assert_eq!(cell.get_word(0), 0xABCD);
    cell.set_byte(0, 0x12);
    assert_eq!(cell, RegisterValue(0xAB12));
    cell.set_byte(1, 0x34);
    assert_eq!(cell, RegisterValue(0x3412));
    cell.set_word(0, 0x600D);
    assert_eq!(cell, RegisterValue(0x600D));
    assert_eq!(RegisterValue::from(7u16), RegisterValue(7));
    assert_eq!(u16::from(RegisterValue(7)), 7);
}

#[test]
fn instruction_pointer_wraps() {
    let mut vm = VM::new(vec![], 0x8000);
    vm.set_reg_value(&Register::rip(), 0xFFFE);
    vm.execute_next().unwrap();
    assert_eq!(vm.regs()[0xE], 0x0000);
    vm.set_reg_value(&Register::rip(), 0xFFFF);
    vm.execute_next().unwrap();
    assert_eq!(vm.regs()[0xE], 0x0001);
}

#[test]
fn word_write_wraps_at_the_top_of_memory() {
    let mut vm = VM::new(vec![0xAA, 0xBB], 0x8000);
    vm.set_mem(0xFFFF, &Immediate::word(0x600D));
    assert_eq!(vm.get_mem_byte(0xFFFF), 0x0D);
    assert_eq!(vm.get_mem_byte(0x0000), 0x60);
    assert_eq!(vm.get_mem(0xFFFF, Width::Word), Immediate::word(0x600D));
}

#[test]
fn reads_beyond_storage_are_zero_and_writes_are_dropped() {
    let mut vm = VM::new(vec![1, 2, 3], 0x10);
    assert_eq!(vm.get_mem_byte(2), 3);
    assert_eq!(vm.get_mem_byte(3), 0);
    assert_eq!(vm.get_mem_byte(0x5FFF), 0);
    assert_eq!(vm.get_mem_byte(0x800F), 0);
    vm.set_mem_byte(0x800F, 9);
    vm.set_mem_byte(0x8010, 9);
    vm.set_mem_byte(3, 9);
    vm.set_mem_byte(1, 9);
    assert_eq!(vm.get_mem_byte(0x800F), 9);
    assert_eq!(vm.get_mem_byte(0x8010), 0);
    assert_eq!(vm.get_mem_byte(3), 0);
    assert_eq!(vm.get_mem_byte(1), 9);
}

#[test]
fn reserved_regions_fail() {
    assert!(VM::is_mapped(0x5FFF));
    assert!(!VM::is_mapped(0x6000));
    assert!(!VM::is_mapped(0x7FFF));
    assert!(VM::is_mapped(0x8000));

    let mut vm = VM::new(vec![], 0x8000);
    let display = Instruction::movi2ip(Immediate::byte(1), Immediate::word(0x6000)).unwrap();
    assert_eq!(vm.execute(&display), Err(Error::Misc("Display".to_string())));
    let io = Instruction::movip2r(Immediate::word(0x7800), Register::r0()).unwrap();
    assert_eq!(vm.execute(&io), Err(Error::Misc("IO".to_string())));
    let straddle = Instruction::movi2ip(Immediate::word(0x600D), Immediate::word(0x7FFF)).unwrap();
    assert_eq!(vm.execute(&straddle), Err(Error::Misc("IO".to_string())));
    let below = Instruction::movi2ip(Immediate::word(0x600D), Immediate::word(0x5FFF)).unwrap();
    assert_eq!(vm.execute(&below), Err(Error::Misc("Display".to_string())));
    assert_eq!(vm.regs(), [0u16; 16]);

    vm.set_reg_value(&Register::rip(), 0x5FFB);
    assert_eq!(vm.execute_next(), Err(Error::Misc("Display".to_string())));
    assert_eq!(vm.regs()[0xE], 0x5FFB);
    vm.set_reg_value(&Register::rip(), 0x7FFF);
    assert_eq!(vm.execute_next(), Err(Error::Misc("IO".to_string())));
}

#[test]
fn decode_failure_leaves_the_machine() {
    let mut vm = VM::new(vec![0xFF, 0x00], 0x8000);
    assert_eq!(vm.execute_next(), Err(Error::NoSuchOpcode(0xFF)));
    assert_eq!(vm.regs(), [0u16; 16]);
}

#[test]
fn failing_instruction_has_moved_the_pointer() {
    let rom = Instruction::movi2ip(Immediate::byte(1), Immediate::word(0x6000)).unwrap().compile();
    let mut vm = VM::new(rom, 0x8000);
    assert_eq!(vm.execute_next(), Err(Error::Misc("Display".to_string())));
    assert_eq!(vm.regs()[0xE], 6);
}

#[test]
fn boot_clears_ram_and_the_pointer() {
    let mut vm = VM::new(vec![1, 2], 0x100);
    vm.set_mem_byte(0x8001, 7);
    vm.set_reg_value(&Register::rip(), 0x10);
    vm.set_reg_value(&Register::r2(), 0x22);
    vm.boot();
    assert_eq!(vm.get_mem_byte(0x8001), 0);
    assert_eq!(vm.get_mem_byte(1), 2);
    assert_eq!(vm.regs()[0xE], 0);
    assert_eq!(vm.regs()[2], 0x22);
}

#[test]
fn rom_can_be_written() {
    let mut vm = VM::new(vec![0, 0, 0, 0], 0);
    vm.set_mem(0x0001, &Immediate::word(0x600D));
    assert_eq!(vm.get_mem_byte(1), 0x0D);
    assert_eq!(vm.get_mem_byte(2), 0x60);
}

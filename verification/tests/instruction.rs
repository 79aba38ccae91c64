use simpleasm::{Error, Immediate, Instruction, ParamIdx, Register, Width};

fn round_trips(instr: Result<Instruction, Error>, bytes: &[u8]) {
    let instr = instr.unwrap();
    let encoded = instr.compile();
    assert_eq!(encoded, bytes);
    assert_eq!(instr.len() as usize, bytes.len());
    assert_eq!(instr.opcode(), bytes[0]);
    assert_eq!(Instruction::decompile(&encoded), Ok(instr));
}

#[test]
fn nop() {
    let instr = Instruction::nop();
    assert!(instr.is_ok(), "{instr:?}");
    round_trips(instr, &[0x00, 0x00]);
}

#[test]
fn movi2r() {
    assert!(Instruction::movi2r(Immediate::byte(0x60), Register::rb0()).is_ok());
    assert!(Instruction::movi2r(Immediate::word(0x600D), Register::r0()).is_ok());
    assert!(Instruction::movi2r(Immediate::byte(0x60), Register::r0()).is_err());
    assert!(Instruction::movi2r(Immediate::word(0x600D), Register::rb0()).is_err());
    round_trips(
        Instruction::movi2r(Immediate::byte(0x60), Register::rb0()),
        &[0x01, 0x00, 0x60, 0x00],
    );
    round_trips(
        Instruction::movi2r(Immediate::word(0x600D), Register::r0()),
        &[0x02, 0x00, 0x0D, 0x60],
    );
}

#[test]
fn movi2rp() {
    assert!(Instruction::movi2rp(Immediate::byte(0x60), Register::r0()).is_ok());
    assert!(Instruction::movi2rp(Immediate::word(0x600D), Register::r0()).is_ok());
    assert!(Instruction::movi2rp(Immediate::byte(0x60), Register::rb0()).is_err());
    assert!(Instruction::movi2rp(Immediate::word(0x600D), Register::rb0()).is_err());
    round_trips(
        Instruction::movi2rp(Immediate::byte(0x60), Register::r0()),
        &[0x03, 0x00, 0x60, 0x00],
    );
    round_trips(
        Instruction::movi2rp(Immediate::word(0x600D), Register::r0()),
        &[0x04, 0x00, 0x0D, 0x60],
    );
}

#[test]
fn movi2ip() {
    assert!(Instruction::movi2ip(Immediate::byte(0x60), Immediate::word(0xF337)).is_ok());
    assert!(Instruction::movi2ip(Immediate::word(0x600D), Immediate::word(0xF337)).is_ok());
    assert!(Instruction::movi2ip(Immediate::byte(0x60), Immediate::byte(0xF3)).is_err());
    assert!(Instruction::movi2ip(Immediate::word(0x600D), Immediate::byte(0xF3)).is_err());
    round_trips(
        Instruction::movi2ip(Immediate::byte(0x60), Immediate::word(0xF337)),
        &[0x05, 0x00, 0x60, 0x00, 0x37, 0xF3],
    );
    round_trips(
        Instruction::movi2ip(Immediate::word(0x600D), Immediate::word(0xF337)),
        &[0x06, 0x00, 0x0D, 0x60, 0x37, 0xF3],
    );
}

#[test]
fn movip2r() {
    assert!(Instruction::movip2r(Immediate::byte(0x60), Register::r0()).is_err());
    round_trips(
        Instruction::movip2r(Immediate::word(0x600D), Register::rb0()),
        &[0x07, 0x00, 0x0D, 0x60],
    );
    round_trips(
        Instruction::movip2r(Immediate::word(0x600D), Register::r0()),
        &[0x08, 0x00, 0x0D, 0x60],
    );
}

#[test]
fn movip2rp() {
    assert!(Instruction::movip2rp(Immediate::byte(0x60), Register::r0()).is_err());
    assert!(Instruction::movip2rp(Immediate::word(0x600D), Register::rb0()).is_err());
    round_trips(
        Instruction::movip2rp(Immediate::word(0x600D), Register::r0()),
        &[0x09, 0x00, 0x0D, 0x60],
    );
}

#[test]
fn movip2ip() {
    assert!(Instruction::movip2ip(Immediate::word(0x600D), Immediate::word(0xF337)).is_ok());
    assert!(Instruction::movip2ip(Immediate::byte(0x60), Immediate::word(0xF337)).is_err());
    assert!(Instruction::movip2ip(Immediate::word(0x600D), Immediate::byte(0xF3)).is_err());
    round_trips(
        Instruction::movip2ip(Immediate::word(0x600D), Immediate::word(0xF337)),
        &[0x0A, 0x00, 0x0D, 0x60, 0x37, 0xF3],
    );
}

#[test]
fn movr2r() {
    assert!(Instruction::movr2r(Register::rb0(), Register::rb1()).is_ok());
    assert!(Instruction::movr2r(Register::r0(), Register::r1()).is_ok());
    assert!(Instruction::movr2r(Register::rb0(), Register::r1()).is_err());
    assert!(Instruction::movr2r(Register::r0(), Register::rb1()).is_err());
    round_trips(Instruction::movr2r(Register::rb0(), Register::rb1()), &[0x0B, 0x10]);
    round_trips(Instruction::movr2r(Register::r0(), Register::r1()), &[0x0C, 0x10]);
    round_trips(Instruction::movr2r(Register::rip(), Register::r10()), &[0x0C, 0xAE]);
}

#[test]
fn movr2rp() {
    assert!(Instruction::movr2rp(Register::rb0(), Register::r1()).is_ok());
    assert!(Instruction::movr2rp(Register::r0(), Register::r1()).is_ok());
    assert!(Instruction::movr2rp(Register::rb0(), Register::rb1()).is_err());
    assert!(Instruction::movr2rp(Register::r0(), Register::rb1()).is_err());
    round_trips(Instruction::movr2rp(Register::rb0(), Register::r1()), &[0x0D, 0x10]);
    round_trips(Instruction::movr2rp(Register::r0(), Register::r1()), &[0x0E, 0x10]);
}

#[test]
fn movr2ip() {
    assert!(Instruction::movr2ip(Register::rb0(), Immediate::word(0x600D)).is_ok());
    assert!(Instruction::movr2ip(Register::r0(), Immediate::word(0x600D)).is_ok());
    assert!(Instruction::movr2ip(Register::rb0(), Immediate::byte(0x60)).is_err());
    assert!(Instruction::movr2ip(Register::r0(), Immediate::byte(0x60)).is_err());
    round_trips(
        Instruction::movr2ip(Register::rb0(), Immediate::word(0x600D)),
        &[0x0F, 0x00, 0x0D, 0x60],
    );
    round_trips(
        Instruction::movr2ip(Register::r0(), Immediate::word(0x600D)),
        &[0x10, 0x00, 0x0D, 0x60],
    );
}

#[test]
fn movrp2r() {
    assert!(Instruction::movrp2r(Register::r0(), Register::rb1()).is_ok());
    assert!(Instruction::movrp2r(Register::r0(), Register::r1()).is_ok());
    assert!(Instruction::movrp2r(Register::rb0(), Register::r1()).is_err());
    assert!(Instruction::movrp2r(Register::rb0(), Register::rb1()).is_err());
    round_trips(Instruction::movrp2r(Register::r0(), Register::rb1()), &[0x11, 0x10]);
    round_trips(Instruction::movrp2r(Register::r0(), Register::r1()), &[0x12, 0x10]);
}

#[test]
fn movrp2rp() {
    assert!(Instruction::movrp2rp(Register::r0(), Register::r1()).is_ok());
    assert!(Instruction::movrp2rp(Register::rb0(), Register::r1()).is_err());
    assert!(Instruction::movrp2rp(Register::rb0(), Register::rb1()).is_err());
    round_trips(Instruction::movrp2rp(Register::r0(), Register::r1()), &[0x13, 0x10]);
}

#[test]
fn movrp2ip() {
    assert!(Instruction::movrp2ip(Register::rb0(), Immediate::word(0x600D)).is_err());
    assert!(Instruction::movrp2ip(Register::r0(), Immediate::byte(0x60)).is_err());
    round_trips(
        Instruction::movrp2ip(Register::r0(), Immediate::word(0x600D)),
        &[0x14, 0x00, 0x0D, 0x60],
    );
}

#[test]
fn invalid_operands_carry_the_instruction() {
    assert_eq!(
        Instruction::movr2r(Register::r0(), Register::rb1()),
        Err(Error::InvalidOperands(Instruction::MovR2R(Register::r0(), Register::rb1())))
    );
}

#[test]
fn validity_rules() {
    assert!(Instruction::Nop.is_valid());
    assert!(Instruction::MovI2R(Immediate::word(1), Register::rip()).is_valid());
    assert!(!Instruction::MovI2R(Immediate::byte(1), Register::rip()).is_valid());
    assert!(!Instruction::MovRP2IP(Register::rb0(), Immediate::word(1)).is_valid());
}

#[test]
fn decoding_failures() {
    assert_eq!(Instruction::decompile(&[]), Err(Error::NoOpcode));
    assert_eq!(Instruction::decompile(&[0x0B]), Err(Error::NoRegs));
    assert_eq!(Instruction::decompile(&[0x00]), Err(Error::NoRegs));
    assert_eq!(Instruction::decompile(&[0xFF]), Err(Error::NoRegs));
    assert_eq!(Instruction::decompile(&[0x02, 0x00]), Err(Error::NoValue(0)));
    assert_eq!(Instruction::decompile(&[0x02, 0x00, 0x0D]), Err(Error::NoValue(1)));
    assert_eq!(Instruction::decompile(&[0x06, 0x00, 0x0D, 0x60]), Err(Error::NoValue(0)));
    assert_eq!(Instruction::decompile(&[0x06, 0x00, 0x0D, 0x60, 0x37]), Err(Error::NoValue(1)));
    assert_eq!(Instruction::decompile(&[0x14, 0x00, 0x0D]), Err(Error::NoValue(1)));
    assert_eq!(Instruction::decompile(&[0x15, 0x00]), Err(Error::NoSuchOpcode(0x15)));
    assert_eq!(Instruction::decompile(&[0xFF, 0x00, 0x00, 0x00]), Err(Error::NoSuchOpcode(0xFF)));
}

#[test]
fn decoding_checks_what_it_rebuilds() {
    assert_eq!(
        Instruction::decompile(&[0x01, 0x00, 0x60, 0x01]),
        Err(Error::NumberOOB(0x0160, Width::Byte))
    );
    assert_eq!(
        Instruction::decompile(&[0x01, 0xE0, 0x60, 0x00]),
        Err(Error::InvalidOperands(Instruction::MovI2R(Immediate::byte(0x60), Register::RIP)))
    );
    assert_eq!(
        Instruction::decompile(&[0x0B, 0x1E]),
        Err(Error::InvalidOperands(Instruction::MovR2R(Register::RIP, Register::rb1())))
    );
}

#[test]
fn decoding_ignores_what_follows() {
    assert_eq!(Instruction::decompile(&[0x00, 0x00, 0xFF, 0xFF, 0xFF, 0xFF]), Ok(Instruction::Nop));
    assert_eq!(
        Instruction::decompile(&[0x0C, 0x10, 0x02, 0x00]),
        Ok(Instruction::MovR2R(Register::r0(), Register::r1()))
    );
}

#[test]
fn every_valid_register_move_round_trips() {
    let regs = [
        Register::r0(), Register::rb0(), Register::r5(), Register::rb5(), Register::r10(),
        Register::rb10(), Register::rsb(), Register::rsh(), Register::flags(), Register::rip(),
        Register::rinfo(),
    ];
    let mut seen = 0;
    for src in regs {
        for dest in regs {
            for made in [
                Instruction::movr2r(src, dest),
                Instruction::movr2rp(src, dest),
                Instruction::movrp2r(src, dest),
                Instruction::movrp2rp(src, dest),
            ] {
                if let Ok(instr) = made {
                    assert_eq!(Instruction::decompile(&instr.compile()), Ok(instr));
                    seen += 1;
                }
            }
        }
    }
    assert!(seen > 100);
}

#[test]
fn replacing_immediates() {
    let instr = Instruction::MovI2IP(Immediate::byte(0), Immediate::word(0));
    assert_eq!(
        instr.replace_imm(ParamIdx::FirstImm, 0x12),
        Ok(Instruction::MovI2IP(Immediate::byte(0x12), Immediate::word(0)))
    );
    assert_eq!(
        instr.replace_imm(ParamIdx::SecondImm, 0x1234),
        Ok(Instruction::MovI2IP(Immediate::byte(0), Immediate::word(0x1234)))
    );
    assert_eq!(
        instr.replace_first_imm(0x1234),
        Ok(Instruction::MovI2IP(Immediate::byte(0x34), Immediate::word(0)))
    );
    assert_eq!(
        instr.replace_second_imm(0x12345),
        Ok(Instruction::MovI2IP(Immediate::byte(0), Immediate::word(0x2345)))
    );
    assert_eq!(
        Instruction::MovI2RP(Immediate::word(0), Register::r0()).replace_first_imm(7),
        Ok(Instruction::MovI2RP(Immediate::word(7), Register::r0()))
    );
    assert_eq!(
        Instruction::MovR2IP(Register::r0(), Immediate::word(0)).replace_first_imm(7),
        Ok(Instruction::MovR2IP(Register::r0(), Immediate::word(7)))
    );
    assert_eq!(
        Instruction::MovRP2IP(Register::r0(), Immediate::word(0)).replace_second_imm(9),
        Ok(Instruction::MovRP2IP(Register::r0(), Immediate::word(9)))
    );
}

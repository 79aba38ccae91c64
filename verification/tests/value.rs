use simpleasm::{Error, Immediate, Register, Value, Width};

#[test]
fn width_fits_its_range() {
    assert!(Width::Byte.fits(0));
    assert!(Width::Byte.fits(0xFF));
    assert!(!Width::Byte.fits(0x100));
    assert!(Width::Word.fits(0x100));
    assert!(Width::Word.fits(0xFFFF));
    assert!(!Width::Word.fits(0x1_0000));
    assert!(!Width::Word.fits(u64::MAX));
}

#[test]
fn smallest_width_that_fits() {
    assert_eq!(Width::smallest_that_fits(0), Width::Byte);
    assert_eq!(Width::smallest_that_fits(0xFF), Width::Byte);
    assert_eq!(Width::smallest_that_fits(0x100), Width::Word);
    assert_eq!(Width::smallest_that_fits(0xFFFF), Width::Word);
}

#[test]
fn width_len_in_bytes() {
    assert_eq!(Width::Byte.len(), 1);
    assert_eq!(Width::Word.len(), 2);
}

#[test]
fn immediate_overflow_is_rejected() {
    assert_eq!(Immediate::new(Width::Byte, 0x100), Err(Error::NumberOOB(0x100, Width::Byte)));
    assert_eq!(
        Immediate::new(Width::Word, 0x1_0000),
        Err(Error::NumberOOB(0x1_0000, Width::Word))
    );
}

#[test]
fn checked_constructor_accepts_what_fits() {
    for (width, limit) in [(Width::Byte, 0x100u64), (Width::Word, 0x1_0000u64)] {
        for value in [0, 1, limit - 1, limit, limit + 1, u64::MAX] {
            let made = Immediate::new(width, value);
            assert_eq!(made.is_ok(), width.fits(value));
            if let Ok(imm) = made {
                assert_eq!(imm.get_value(), value);
                assert_eq!(imm.width(), width);
            }
        }
    }
}

#[test]
fn immediate_constructors_agree() {
    assert_eq!(Immediate::new(Width::Byte, 0x60), Ok(Immediate::byte(0x60)));
    assert_eq!(Immediate::new(Width::Word, 0x600D), Ok(Immediate::word(0x600D)));
    assert_eq!(Immediate::new_unchecked(Width::Word, 0x600D), Immediate::word(0x600D));
    assert_ne!(Immediate::byte(0x60), Immediate::word(0x60));
}

#[test]
fn immediate_bytes_and_words() {
    let imm = Immediate::word(0x600D);
    assert_eq!(imm.get_byte(0), 0x0D);
    assert_eq!(imm.get_byte(1), 0x60);
    assert_eq!(imm.get_byte(2), 0x00);
    assert_eq!(imm.get_byte(7), 0x00);
    assert_eq!(imm.get_word(0), 0x600D);
    assert_eq!(imm.get_word(1), 0x0000);
    assert_eq!(imm.get_word(3), 0x0000);
    assert_eq!(imm.get_value(), 0x600D);
}

#[test]
fn register_selectors() {
    assert_eq!(Register::r0().as_src(), 0x0);
    assert_eq!(Register::rb10().as_src(), 0xA);
    assert_eq!(Register::rsb().as_src(), 0xB);
    assert_eq!(Register::rsh().as_src(), 0xC);
    assert_eq!(Register::flags().as_src(), 0xD);
    assert_eq!(Register::rip().as_src(), 0xE);
    assert_eq!(Register::rinfo().as_src(), 0xF);
    assert_eq!(Register::r1().as_dest(), 0x10);
    assert_eq!(Register::rinfo().as_dest(), 0xF0);
    assert_eq!(Register::r3().as_src_with(&Register::rip()), 0xE3);
}

#[test]
fn register_from_selector() {
    assert_eq!(Register::from_src(Width::Word, 0x00), Register::r0());
    assert_eq!(Register::from_src(Width::Byte, 0x0A), Register::rb10());
    assert_eq!(Register::from_src(Width::Byte, 0xFA), Register::rb10());
    assert_eq!(Register::from_src(Width::Byte, 0x0B), Register::RSB);
    assert_eq!(Register::from_src(Width::Word, 0x0F), Register::RINFO);
    assert_eq!(Register::from_dest(Width::Word, 0x10), Register::r1());
    assert_eq!(Register::from_dest(Width::Byte, 0xE5), Register::RIP);
    assert_eq!(Register::from_dest(Width::Byte, 0x5E), Register::rb5());
}

#[test]
fn selector_round_trip() {
    let all = [
        Register::r0(), Register::rb0(), Register::r1(), Register::rb1(), Register::r2(),
        Register::rb2(), Register::r3(), Register::rb3(), Register::r4(), Register::rb4(),
        Register::r5(), Register::rb5(), Register::r6(), Register::rb6(), Register::r7(),
        Register::rb7(), Register::r8(), Register::rb8(), Register::r9(), Register::rb9(),
        Register::r10(), Register::rb10(), Register::rsb(), Register::rsh(), Register::flags(),
        Register::rip(), Register::rinfo(),
    ];
    for src in all {
        for dest in all {
            let byte = src.as_src_with(&dest);
            assert_eq!(Register::from_src(src.width(), byte), src);
            assert_eq!(Register::from_dest(dest.width(), byte), dest);
        }
    }
}

#[test]
fn register_widths() {
    assert_eq!(Register::r0().width(), Width::Word);
    assert_eq!(Register::rb0().width(), Width::Byte);
    assert_eq!(Register::rip().width(), Width::Word);
    assert_eq!(Register::rinfo().width(), Width::Word);
    assert_eq!(Register::flags().width(), Width::Word);
    assert_eq!(Register::rsh().width(), Width::Word);
    assert_eq!(Register::rsb().width(), Width::Word);
}

#[test]
fn register_by_name() {
    assert_eq!(Register::from("r0"), Some(Register::R(Width::Word, 0)));
    assert_eq!(Register::from("rb0"), Some(Register::R(Width::Byte, 0)));
    assert_eq!(Register::from("r10"), Some(Register::R(Width::Word, 10)));
    assert_eq!(Register::from("rb10"), Some(Register::R(Width::Byte, 10)));
    assert_eq!(Register::from("R7"), Some(Register::r7()));
    assert_eq!(Register::from("RIP"), Some(Register::RIP));
    assert_eq!(Register::from("rinfo"), Some(Register::RINFO));
    assert_eq!(Register::from("Flags"), Some(Register::Flags));
    assert_eq!(Register::from("rsh"), Some(Register::RSH));
    assert_eq!(Register::from("rsb"), Some(Register::RSB));
    assert_eq!(Register::from("r11"), None);
    assert_eq!(Register::from("r"), None);
    assert_eq!(Register::from("r00"), None);
    assert_eq!(Register::from(""), None);
    assert_eq!(Register::from("label"), None);
    assert_eq!(Register::from_lowercase("R0"), None);
    assert_eq!(Register::from_lowercase("r0"), Some(Register::r0()));
}

use simpleasm::{
    compile, compile_to_context, compile_to_instructions, Error, Immediate, Instruction, ParamIdx,
    Register, Width,
};

#[test]
fn compile_nop() {
    let code = "nop";
    let instructions = compile_to_instructions(code);
    assert_eq!(instructions, Ok(
        vec![Instruction::nop().unwrap()],
    ))
}

#[test]
fn compile_mov() {
    let cases = vec![
        ("mov 0x60, rb0", Ok(vec![Instruction::movi2r(Immediate::byte(0x60), Register::rb0()).unwrap()])),
        ("mov 0x600D, r0", Ok(vec![Instruction::movi2r(Immediate::word(0x600D), Register::r0()).unwrap()])),
        ("nop\nlabel: mov label, r0", Ok(vec![Instruction::nop().unwrap(), Instruction::movi2r(Immediate::word(0x0002), Register::r0()).unwrap()])),
        ("mov 0x600D, [r0]", Ok(vec![Instruction::movi2rp(Immediate::word(0x600D), Register::r0()).unwrap()])),
        ("mov 0x600D, [0xF337]", Ok(vec![Instruction::movi2ip(Immediate::word(0x600D), Immediate::word(0xF337)).unwrap()])),
        ("nop\nlabel: mov 0x600D, [label]", Ok(vec![Instruction::nop().unwrap(), Instruction::movi2ip(Immediate::word(0x600D), Immediate::word(0x0002)).unwrap()])),

        ("mov [0x600D], rb0", Ok(vec![Instruction::movip2r(Immediate::word(0x600D), Register::rb0()).unwrap()])),
        ("mov [0x600D], r0", Ok(vec![Instruction::movip2r(Immediate::word(0x600D), Register::r0()).unwrap()])),
        ("nop\nlabel: mov [label], r0", Ok(vec![Instruction::nop().unwrap(), Instruction::movip2r(Immediate::word(0x0002), Register::r0()).unwrap()])),
        ("mov [0x600D], [r0]", Ok(vec![Instruction::movip2rp(Immediate::word(0x600D), Register::r0()).unwrap()])),
        ("mov [0x600D], [0xF337]", Ok(vec![Instruction::movip2ip(Immediate::word(0x600D), Immediate::word(0xF337)).unwrap()])),
        ("nop\nlabel: mov [0x600D], [label]", Ok(vec![Instruction::nop().unwrap(), Instruction::movip2ip(Immediate::word(0x600D), Immediate::word(0x0002)).unwrap()])),

        ("mov rb0, rb1", Ok(vec![Instruction::movr2r(Register::rb0(), Register::rb1()).unwrap()])),
        ("mov r0, r1", Ok(vec![Instruction::movr2r(Register::r0(), Register::r1()).unwrap()])),
        ("mov r0, [r1]", Ok(vec![Instruction::movr2rp(Register::r0(), Register::r1()).unwrap()])),
        ("mov r0, [0x600D]", Ok(vec![Instruction::movr2ip(Register::r0(), Immediate::word(0x600D)).unwrap()])),
        ("nop\nlabel: mov r0, [label]", Ok(vec![Instruction::nop().unwrap(), Instruction::movr2ip(Register::r0(), Immediate::word(0x0002)).unwrap()])),

        ("mov [r0], rb1", Ok(vec![Instruction::movrp2r(Register::r0(), Register::rb1()).unwrap()])),
        ("mov [r0], r1", Ok(vec![Instruction::movrp2r(Register::r0(), Register::r1()).unwrap()])),
        ("mov [r0], [r1]", Ok(vec![Instruction::movrp2rp(Register::r0(), Register::r1()).unwrap()])),
        ("mov [r0], [0x600D]", Ok(vec![Instruction::movrp2ip(Register::r0(), Immediate::word(0x600D)).unwrap()])),
        ("nop\nlabel: mov [r0], [label]", Ok(vec![Instruction::nop().unwrap(), Instruction::movrp2ip(Register::r0(), Immediate::word(0x0002)).unwrap()])),
    ];

    for (code, expect) in cases.into_iter() {
        let instructions = compile_to_instructions(code);
        assert_eq!(instructions, expect, "\"{code}\"");
    }
}

#[test]
fn comment() {
    let cases = vec![
        ("/* NOPE */ nop /* NOPE */\n/* NOPE */ label: /* NOPE */ mov /* NOPE */ 0x600D /* NOPE */, /* NOPE */[/* NOPE */ label /* NOPE */] /* NOPE */ // NOPE /* NOPE */ // NOPE\nnop", Ok(vec![Instruction::nop().unwrap(), Instruction::movi2ip(Immediate::word(0x600D), Immediate::word(0x0002)).unwrap(), Instruction::nop().unwrap()])),
    ];

    for (code, expect) in cases.into_iter() {
        let instructions = compile_to_instructions(code);
        assert_eq!(instructions, expect, "\"{code}\"");
    }
}

#[test]
fn nop_assembles_to_two_zero_bytes() {
    let bytes = compile("nop").unwrap();
    assert_eq!(bytes, vec![0x00, 0x00]);
    assert_eq!(Instruction::decompile(&bytes), Ok(Instruction::Nop));
}

#[test]
fn word_move_assembles_little_endian() {
    let bytes = compile("mov 0x600D, r0").unwrap();
    assert_eq!(bytes, vec![0x02, 0x00, 0x0D, 0x60]);
    assert_eq!(
        Instruction::decompile(&bytes),
        Ok(Instruction::MovI2R(Immediate::word(0x600D), Register::r0()))
    );
}

#[test]
fn label_resolves_to_byte_offset() {
    let bytes = compile("nop\nlabel: mov label, r0").unwrap();
    assert_eq!(bytes, vec![0x00, 0x00, 0x02, 0x00, 0x02, 0x00]);
}

#[test]
fn rom_is_the_concatenation_of_the_encodings() {
    let code = "start: mov 0x8000, r0\nmov 0x60, [r0]\nmov [start], [end]\nnop\nend: mov r0, [r1]";
    let instructions = compile_to_instructions(code).unwrap();
    let expected: Vec<u8> = instructions.iter().flat_map(|i| i.compile()).collect();
    assert_eq!(compile(code), Ok(expected));
}

#[test]
fn forward_and_backward_references() {
    let code = "a: mov [b], r0\nmov [a], r1\nb: nop\nmov r0, [b]";
    let instructions = compile_to_instructions(code).unwrap();
    assert_eq!(instructions, vec![
        Instruction::MovIP2R(Immediate::word(8), Register::r0()),
        Instruction::MovIP2R(Immediate::word(0), Register::r1()),
        Instruction::Nop,
        Instruction::MovR2IP(Register::r0(), Immediate::word(8)),
    ]);
}

#[test]
fn both_operands_may_be_labels() {
    let code = "nop\nsrc: nop\ndst: mov [src], [dst]";
    assert_eq!(
        compile_to_instructions(code),
        Ok(vec![
            Instruction::Nop,
            Instruction::Nop,
            Instruction::MovIP2IP(Immediate::word(2), Immediate::word(4)),
        ])
    );
}

#[test]
fn label_at_the_end_resolves_to_the_length() {
    assert_eq!(
        compile_to_instructions("mov end, r0\nend:"),
        Ok(vec![Instruction::MovI2R(Immediate::word(4), Register::r0())])
    );
}

#[test]
fn later_definition_of_a_label_wins() {
    assert_eq!(
        compile_to_instructions("l: nop\nl: mov l, r0"),
        Ok(vec![Instruction::Nop, Instruction::MovI2R(Immediate::word(2), Register::r0())])
    );
}

#[test]
fn label_in_a_byte_slot_is_cut_to_a_byte() {
    let mut code = String::new();
    for _ in 0..128 {
        code.push_str("nop\n");
    }
    code.push_str("far: mov far, rb0\nmov far, [r0]");
    let instructions = compile_to_instructions(&code).unwrap();
    assert_eq!(instructions[128], Instruction::MovI2R(Immediate::byte(0x00), Register::rb0()));
    assert_eq!(instructions[129], Instruction::MovI2RP(Immediate::byte(0x00), Register::r0()));
}

#[test]
fn undefined_label_fails() {
    assert_eq!(
        compile_to_instructions("mov nowhere, r0"),
        Err(Error::LabelNotDefined("nowhere".to_string()))
    );
    assert_eq!(
        compile("nop\nmov [r0], [missing]"),
        Err(Error::LabelNotDefined("missing".to_string()))
    );
}

#[test]
fn number_out_of_bounds_fails() {
    assert_eq!(compile("mov 0x100, rb0"), Err(Error::NumberOOB(0x100, Width::Byte)));
    assert_eq!(compile("mov 0x10000, r0"), Err(Error::NumberOOB(0x10000, Width::Word)));
    assert_eq!(compile("mov 0x10000, [r0]"), Err(Error::NumberOOB(0x10000, Width::Word)));
    assert_eq!(compile("mov [0x10000], r0"), Err(Error::NumberOOB(0x10000, Width::Word)));
    assert_eq!(compile("mov r0, [0x10000]"), Err(Error::NumberOOB(0x10000, Width::Word)));
    assert_eq!(compile("mov -1, r0"), Err(Error::NumberOOB(u64::MAX, Width::Word)));
}

#[test]
fn invalid_operands_fail() {
    assert_eq!(
        compile("mov r0, rb1"),
        Err(Error::InvalidOperands(Instruction::MovR2R(Register::r0(), Register::rb1())))
    );
    assert_eq!(
        compile("mov 1, [rb0]"),
        Err(Error::InvalidOperands(Instruction::MovI2RP(Immediate::byte(1), Register::rb0())))
    );
    assert_eq!(
        compile("mov [rb0], r1"),
        Err(Error::InvalidOperands(Instruction::MovRP2R(Register::rb0(), Register::r1())))
    );
}

#[test]
fn number_cannot_be_a_destination() {
    assert_eq!(
        compile("mov r0, 5"),
        Err(Error::UnexpectedToken("movr2x".to_string(), "Number(5)".to_string()))
    );
    assert_eq!(
        compile("mov 1, 5"),
        Err(Error::UnexpectedToken("movi2x".to_string(), "Number(5)".to_string()))
    );
    assert_eq!(
        compile("mov [1], 5"),
        Err(Error::UnexpectedToken("movip2x".to_string(), "Number(5)".to_string()))
    );
    assert_eq!(
        compile("mov [r1], 5"),
        Err(Error::UnexpectedToken("movrp2x".to_string(), "Number(5)".to_string()))
    );
}

#[test]
fn token_that_is_no_operand_fails() {
    assert_eq!(
        compile("mov +, r0"),
        Err(Error::UnexpectedToken("mov".to_string(), "Punct('+')".to_string()))
    );
    assert_eq!(
        compile("mov r0, (r1)"),
        Err(Error::UnexpectedToken(
            "movr2x".to_string(),
            "Group(Paren, [Ident(\"r1\")])".to_string()
        ))
    );
    assert_eq!(
        compile("mov [1 2], r0"),
        Err(Error::UnexpectedToken(
            "mov".to_string(),
            "Group(Brack, [Number(1), Number(2)])".to_string()
        ))
    );
}

#[test]
fn register_names_ignore_case() {
    assert_eq!(
        compile_to_instructions("mov R0, RB1\nmov RIP, Flags"),
        Err(Error::InvalidOperands(Instruction::MovR2R(Register::r0(), Register::rb1())))
    );
    assert_eq!(
        compile_to_instructions("mov RIP, Flags\nmov rSb, RinFO"),
        Ok(vec![
            Instruction::MovR2R(Register::RIP, Register::Flags),
            Instruction::MovR2R(Register::RSB, Register::RINFO),
        ])
    );
}

#[test]
fn context_records_definitions_and_references() {
    let ctx = compile_to_context("nop\na: mov a, [b]\nb: nop").unwrap();
    assert_eq!(ctx.instructions.len(), 3);
    assert_eq!(ctx.label_refs, vec![
        ("a".to_string(), 1, ParamIdx::FirstImm),
        ("b".to_string(), 1, ParamIdx::SecondImm),
    ]);
    assert_eq!(ctx.label_defs.len(), 2);
    assert_eq!(ctx.label_defs.get("a"), Some(&1));
    assert_eq!(ctx.label_defs.get("b"), Some(&2));
    assert_eq!(
        ctx.instructions[1],
        Instruction::MovI2IP(Immediate::byte(0), Immediate::word(0))
    );
}

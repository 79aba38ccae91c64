use simpleasm::{parse, Error, Expr, GroupDelim, Token};

#[test]
fn label() {
    let code = "a_label: nop";
    let exprs = parse(code);
    assert_eq!(exprs, Ok(vec![
        Expr::Label("a_label".to_string()),
        Expr::Nop,
    ]));
}

#[test]
fn parser_nop() {
    let code = "nop";
    let exprs = parse(code);
    assert_eq!(exprs, Ok(vec![
        Expr::Nop,
    ]));
}

#[test]
fn parser_mov() {
    let code = "mov 0x600D, r0";
    let exprs = parse(code);
    assert_eq!(exprs, Ok(vec![
        Expr::Mov(Token::Number(0x600D), Token::Ident("r0".to_string())),
    ]));
}

#[test]
fn operands_are_single_tokens() {
    assert_eq!(
        parse("mov [r0], [0x10]"),
        Ok(vec![Expr::Mov(
            Token::Group(GroupDelim::Brack, vec![Token::Ident("r0".to_string())]),
            Token::Group(GroupDelim::Brack, vec![Token::Number(0x10)]),
        )])
    );
}

#[test]
fn missing_operand_or_comma() {
    assert_eq!(parse("mov"), Err(Error::MissingToken("mov".to_string())));
    assert_eq!(parse("mov 1"), Err(Error::MissingToken("mov".to_string())));
    assert_eq!(parse("mov 1,"), Err(Error::MissingToken("mov".to_string())));
}

#[test]
fn token_in_place_of_the_comma() {
    assert_eq!(
        parse("mov 1 r0"),
        Err(Error::UnexpectedToken("mov".to_string(), "Ident(\"r0\")".to_string()))
    );
    assert_eq!(
        parse("mov 1 ; r0"),
        Err(Error::UnexpectedToken("mov".to_string(), "Punct(';')".to_string()))
    );
}

#[test]
fn statement_must_begin_with_an_identifier() {
    assert_eq!(
        parse("5"),
        Err(Error::UnexpectedToken("parse_toks".to_string(), "Number(5)".to_string()))
    );
    assert_eq!(
        parse("nop ,"),
        Err(Error::UnexpectedToken("parse_toks".to_string(), "Punct(',')".to_string()))
    );
}

#[test]
fn unknown_mnemonic() {
    assert_eq!(parse("jmp"), Err(Error::UnknownInstruction("jmp".to_string())));
    assert_eq!(parse("NOP"), Err(Error::UnknownInstruction("NOP".to_string())));
}

#[test]
fn malformed_text_fails_with_eol() {
    assert_eq!(parse("mov (1, r0"), Err(Error::EOL));
}

#[test]
fn label_may_be_named_like_a_mnemonic() {
    assert_eq!(
        parse("mov: nop:"),
        Ok(vec![Expr::Label("mov".to_string()), Expr::Label("nop".to_string())])
    );
}

#[test]
fn empty_text_has_no_expressions() {
    assert_eq!(parse(""), Ok(vec![]));
}

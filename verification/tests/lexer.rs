use simpleasm::{tokenize, try_tokenize, Error, GroupDelim, Token};

fn idents(code: &str) -> Vec<Token> {
    code.split_whitespace().map(|s| Token::Ident(s.to_string())).collect()
}

fn numbers() -> Vec<Token> {
    vec![
        Token::Number(0),
        Token::Number(0x0),
        Token::Number(0o0),
        Token::Number(0b0),
        Token::Number(62263),
        Token::Number(-62263i64 as u64),
        Token::Number(0xF337),
        Token::Number(0o171467),
        Token::Number(0b1111001100110111),
    ]
}

fn puncts() -> Vec<Token> {
    vec![
        Token::Punct('+'),
        Token::Punct('-'),
        Token::Punct('*'),
        Token::Punct('/'),
        Token::Punct('%'),
        Token::Punct(','),
        Token::Punct('\''),
        Token::Punct('\\'),
    ]
}

#[test]
fn lib_ident() {
    let code = " a ab  ab1   a1b   ab_    a_b     _ab ";
    let toks = tokenize(code);
    let res: Vec<_> = idents(code);
    assert_eq!(toks, res);
}

#[test]
fn lib_number() {
    let code = "0 0x0 0o0 0b0 62263 -62263 0xF337 0o171467 0b1111001100110111";
    let toks = tokenize(code);
    assert_eq!(toks, numbers());
}

#[test]
fn lib_punct() {
    let code = "+ - * / % , ' \\";
    let toks = tokenize(code);
    assert_eq!(toks, puncts());
}

#[test]
fn group() {
    let code = "(a) (a b) ((a)) [] {}";
    let toks = tokenize(code);
    assert_eq!(toks, vec![
        Token::Group(GroupDelim::Paren, vec![Token::Ident("a".to_string())]),
        Token::Group(GroupDelim::Paren, vec![Token::Ident("a".to_string()), Token::Ident("b".to_string())]),
        Token::Group(GroupDelim::Paren, vec![
            Token::Group(GroupDelim::Paren, vec![Token::Ident("a".to_string())])
        ]),
        Token::Group(GroupDelim::Brack, vec![]),
        Token::Group(GroupDelim::Brace, vec![]),
    ]);
}

#[test]
fn token_ident() {
    let code = " a ab  ab1   a1b   ab_    a_b     _ab ";
    let toks = tokenize(code);
    let res: Vec<_> = idents(code);
    assert_eq!(toks, res);
}

#[test]
fn token_number() {
    let code = "0 0x0 0o0 0b0 62263 -62263 0xF337 0o171467 0b1111001100110111";
    let toks = tokenize(code);
    assert_eq!(toks, numbers());
}

#[test]
fn token_punct() {
    let code = "+ - * / % , ' \\";
    let toks = tokenize(code);
    assert_eq!(toks, puncts());
}

#[test]
fn empty_text_has_no_tokens() {
    assert_eq!(try_tokenize(""), Ok(vec![]));
    assert_eq!(try_tokenize("  \n\t "), Ok(vec![]));
}

#[test]
fn lone_minus_is_punctuation() {
    assert_eq!(try_tokenize("-"), Ok(vec![Token::Punct('-')]));
    assert_eq!(try_tokenize("- 1"), Ok(vec![Token::Punct('-'), Token::Number(1)]));
    assert_eq!(try_tokenize("-a"), Ok(vec![Token::Punct('-'), Token::Ident("a".to_string())]));
}

#[test]
fn negative_numbers_are_twos_complement() {
    assert_eq!(try_tokenize("-1"), Ok(vec![Token::Number(u64::MAX)]));
    assert_eq!(try_tokenize("-0"), Ok(vec![Token::Number(0)]));
    assert_eq!(
        try_tokenize("-9223372036854775807"),
        Ok(vec![Token::Number(0x8000_0000_0000_0001)])
    );
}

#[test]
fn numbers_out_of_range_fail() {
    assert_eq!(try_tokenize("18446744073709551615"), Ok(vec![Token::Number(u64::MAX)]));
    assert_eq!(try_tokenize("18446744073709551616"), Err(Error::EOL));
    assert_eq!(try_tokenize("0xFFFFFFFFFFFFFFFF"), Ok(vec![Token::Number(u64::MAX)]));
    assert_eq!(try_tokenize("0x10000000000000000"), Err(Error::EOL));
    assert_eq!(try_tokenize("-9223372036854775808"), Err(Error::EOL));
}

#[test]
fn prefix_without_digits_fails() {
    assert_eq!(try_tokenize("0x"), Err(Error::EOL));
    assert_eq!(try_tokenize("0o "), Err(Error::EOL));
    assert_eq!(try_tokenize("0b2"), Err(Error::EOL));
    assert_eq!(try_tokenize("0xg"), Err(Error::EOL));
}

#[test]
fn digits_end_where_the_base_ends() {
    assert_eq!(try_tokenize("0b12"), Ok(vec![Token::Number(1), Token::Number(2)]));
    assert_eq!(try_tokenize("0o78"), Ok(vec![Token::Number(7), Token::Number(8)]));
    assert_eq!(
        try_tokenize("0X1"),
        Ok(vec![Token::Number(0), Token::Ident("X1".to_string())])
    );
    assert_eq!(
        try_tokenize("00x1"),
        Ok(vec![Token::Number(0), Token::Ident("x1".to_string())])
    );
    assert_eq!(try_tokenize("007"), Ok(vec![Token::Number(7)]));
    assert_eq!(try_tokenize("0xaBcD"), Ok(vec![Token::Number(0xABCD)]));
}

#[test]
fn unclosed_group_fails() {
    assert_eq!(try_tokenize("(a"), Err(Error::EOL));
    assert_eq!(try_tokenize("[1, 2"), Err(Error::EOL));
    assert_eq!(try_tokenize("((a)"), Err(Error::EOL));
}

#[test]
fn other_closer_stays_inside_the_group() {
    assert_eq!(
        try_tokenize("(a])"),
        Ok(vec![Token::Group(
            GroupDelim::Paren,
            vec![Token::Ident("a".to_string()), Token::Punct(']')]
        )])
    );
    assert_eq!(try_tokenize(")"), Ok(vec![Token::Punct(')')]));
}

#[test]
fn comments_are_dropped() {
    assert_eq!(
        try_tokenize("a // b c\nd"),
        Ok(vec![Token::Ident("a".to_string()), Token::Ident("d".to_string())])
    );
    assert_eq!(
        try_tokenize("a/* b */c"),
        Ok(vec![Token::Ident("a".to_string()), Token::Ident("c".to_string())])
    );
    assert_eq!(try_tokenize("a // no line end"), Ok(vec![Token::Ident("a".to_string())]));
    assert_eq!(try_tokenize("/**/"), Ok(vec![]));
    assert_eq!(try_tokenize("/*/ a"), Err(Error::EOL));
    assert_eq!(try_tokenize("a /* never closed"), Err(Error::EOL));
    assert_eq!(
        try_tokenize("1 / 2"),
        Ok(vec![Token::Number(1), Token::Punct('/'), Token::Number(2)])
    );
}

#[test]
fn lexing_stops_at_a_character_that_begins_no_token() {
    assert_eq!(try_tokenize("nop \u{1} mov"), Ok(vec![Token::Ident("nop".to_string())]));
    assert_eq!(try_tokenize("(a \u{1})"), Err(Error::EOL));
}

#[test]
fn underscore_begins_an_identifier() {
    assert_eq!(try_tokenize("_"), Ok(vec![Token::Ident("_".to_string())]));
    assert_eq!(try_tokenize("_1"), Ok(vec![Token::Ident("_1".to_string())]));
    assert_eq!(
        try_tokenize("1_"),
        Ok(vec![Token::Number(1), Token::Ident("_".to_string())])
    );
}

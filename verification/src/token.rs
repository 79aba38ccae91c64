//! The lexer: from source text to tokens.
//!
//! Comments are removed first. What is left is cut into identifiers, numbers,
//! punctuation and bracketed groups, which hold the tokens between an opening
//! bracket and its closing one.

use vstd::prelude::*;
use crate::chars::{
    char_is_whitespace, chars_of, is_ascii_digit, is_ascii_punctuation, is_digit,
    is_digit_in, is_digit_of, is_ident_char, is_ident_start, is_punct, lemma_run_is,
    lemma_run_len, number_of, run_len, string_of, value_of_digit,
};
use crate::error::Error;
use crate::scanner::Scanner;

verus! {

/// The kind of bracket that encloses a group.
#[derive(Debug, Clone, Copy, PartialEq, Eq, Structural)]
pub enum GroupDelim {
    Paren,
    Brack,
    Brace,
    Nil,
}

impl GroupDelim {
    /// The kind of bracket that `c` opens.
    pub open spec fn spec_from_open(c: char) -> Option<GroupDelim> {
        if c == '(' {
            Some(GroupDelim::Paren)
        } else if c == '[' {
            Some(GroupDelim::Brack)
        } else if c == '{' {
            Some(GroupDelim::Brace)
        } else {
            None
        }
    }

    /// The kind of bracket that `c` closes.
    pub open spec fn spec_from_close(c: char) -> Option<GroupDelim> {
        if c == ')' {
            Some(GroupDelim::Paren)
        } else if c == ']' {
            Some(GroupDelim::Brack)
        } else if c == '}' {
            Some(GroupDelim::Brace)
        } else {
            None
        }
    }

    /// The kind of bracket that `c` is, opening or closing.
    pub fn from(c: &char) -> (r: Option<Self>)
        ensures
            r == if Self::spec_from_open(*c) is Some {
                Self::spec_from_open(*c)
            } else {
                Self::spec_from_close(*c)
            },
    {
        match Self::from_open(c) {
            Some(delim) => Some(delim),
            None => Self::from_close(c),
        }
    }

    /// The kind of bracket that `c` opens, if it opens one.
    pub fn from_open(c: &char) -> (r: Option<Self>)
        ensures
            r == Self::spec_from_open(*c),
    {
        if *c == '(' {
            Some(Self::Paren)
        } else if *c == '[' {
            Some(Self::Brack)
        } else if *c == '{' {
            Some(Self::Brace)
        } else {
            None
        }
    }

    /// The kind of bracket that `c` closes, if it closes one.
    pub fn from_close(c: &char) -> (r: Option<Self>)
        ensures
            r == Self::spec_from_close(*c),
    {
        if *c == ')' {
            Some(Self::Paren)
        } else if *c == ']' {
            Some(Self::Brack)
        } else if *c == '}' {
            Some(Self::Brace)
        } else {
            None
        }
    }
}

/// A lexical unit of the source text.
#[derive(Debug, PartialEq)]
pub enum Token {
    /// The tokens between two matching brackets.
    Group(GroupDelim, Vec<Token>),
    /// A name: a mnemonic, a register or a label.
    Ident(String),
    /// A number. A negative literal is held in two's complement.
    Number(u64),
    /// One punctuation character.
    Punct(char),
}

impl Clone for Token {
    /// A copy with the same view.
    fn clone(&self) -> (copy: Self)
        ensures
            copy@ == self@,
        decreases self,
    {
        match self {
            Token::Group(delim, inner) => {
                let mut copies: Vec<Token> = Vec::new();
                let mut i: usize = 0;
                while i < inner.len()
                    invariant
                        i <= inner.len(),
                        decreases_to!(*self => *inner),
                        copies@.len() == i,
                        forall|k: int| 0 <= k < i ==> copies@[k]@ == inner@[k]@,
                    decreases inner.len() - i,
                {
                    proof {
                        vstd::std_specs::vec::axiom_vec_index_decreases(*inner, i as int);
                        assert(decreases_to!(*inner => inner[i as int]));
                    }
                    copies.push(inner[i].clone());
                    i += 1;
                }
                proof {
                    lemma_group_view(*delim, *inner);
                    lemma_group_view(*delim, copies);
                    assert(tokens_view(copies@) =~= tokens_view(inner@));
                }
                Token::Group(*delim, copies)
            },
            Token::Ident(name) => Token::Ident(name.clone()),
            Token::Number(value) => Token::Number(*value),
            Token::Punct(c) => Token::Punct(*c),
        }
    }
}

/// A token as a mathematical value.
pub enum TokenView {
    Group(GroupDelim, Seq<TokenView>),
    Ident(Seq<char>),
    Number(u64),
    Punct(char),
}

impl View for Token {
    type V = TokenView;

    open spec fn view(&self) -> TokenView {
        token_view(*self)
    }
}

/// The view of a token: its strings by their characters, its groups by the
/// views of their tokens.
pub open spec fn token_view(token: Token) -> TokenView
    decreases token,
{
    match token {
        Token::Group(delim, inner) => TokenView::Group(
            delim,
            Seq::new(
                inner@.len(),
                |i: int|
                    if 0 <= i < inner@.len() {
                        token_view(inner@[i])
                    } else {
                        TokenView::Number(0)
                    },
            ),
        ),
        Token::Ident(name) => TokenView::Ident(name@),
        Token::Number(value) => TokenView::Number(value),
        Token::Punct(c) => TokenView::Punct(c),
    }
}

/// The views of a sequence of tokens.
pub open spec fn tokens_view(tokens: Seq<Token>) -> Seq<TokenView> {
    Seq::new(tokens.len(), |i: int| tokens[i]@)
}

/// The view of a group holds the views of its tokens.
pub proof fn lemma_group_view(delim: GroupDelim, inner: Vec<Token>)
    ensures
        Token::Group(delim, inner)@ == TokenView::Group(delim, tokens_view(inner@)),
{
    match Token::Group(delim, inner)@ {
        TokenView::Group(_, views) => {
            assert(views =~= tokens_view(inner@));
        },
        _ => {},
    }
}

/// What the lexer makes of the head of a text.
pub enum Lexed {
    /// The text is malformed.
    Failure,
    /// No token begins here.
    Nothing,
    /// A token, and the text that follows it.
    Token(TokenView, Seq<char>),
}

/// The text without its leading white space.
pub open spec fn skip_ws(s: Seq<char>) -> Seq<char> {
    s.skip(run_len(s, |c: char| char_is_whitespace(c)) as int)
}

/// An identifier: a character that can begin one, with all the characters
/// after it that can continue one.
pub open spec fn lex_ident(s: Seq<char>) -> Lexed {
    if s.len() > 0 && is_ident_start(s[0]) {
        let n = run_len(s, |c: char| is_ident_char(c));
        Lexed::Token(TokenView::Ident(s.take(n as int)), s.skip(n as int))
    } else {
        Lexed::Nothing
    }
}

/// The 64-bit two's complement of `value`.
pub open spec fn negated(value: nat) -> u64 {
    ((0x1_0000_0000_0000_0000 - value) % 0x1_0000_0000_0000_0000) as u64
}

/// The number written by the digits of base `radix` that begin at `s[from]`,
/// as many as there are. Without a digit, or with a number above `limit`, the
/// text is malformed.
pub open spec fn lex_digits(
    s: Seq<char>,
    from: int,
    radix: u64,
    limit: nat,
    negative: bool,
) -> Lexed {
    let run = run_len(s.skip(from), |c: char| is_digit_of(c, radix));
    let value = number_of(s.subrange(from, from + run), radix as nat);
    if run == 0 || value > limit {
        Lexed::Failure
    } else if negative {
        Lexed::Token(TokenView::Number(negated(value)), s.skip(from + run))
    } else {
        Lexed::Token(TokenView::Number(value as u64), s.skip(from + run))
    }
}

/// A number, or a lone minus sign.
///
/// A minus sign with decimal digits after it is a negative number, whose
/// digits must write a number that a signed 64-bit integer holds. A zero with
/// `x`, `o` or `b` after it begins a number of base 16, 8 or 2. Any other
/// digit begins a decimal number.
pub open spec fn lex_number(s: Seq<char>) -> Lexed {
    if s.len() == 0 {
        Lexed::Nothing
    } else if s[0] == '-' {
        if s.len() > 1 && is_digit(s[1]) {
            lex_digits(s, 1, 10, i64::MAX as nat, true)
        } else {
            Lexed::Token(TokenView::Punct('-'), s.skip(1))
        }
    } else if !is_digit(s[0]) {
        Lexed::Nothing
    } else if s[0] == '0' && s.len() > 1 && s[1] == 'x' {
        lex_digits(s, 2, 16, u64::MAX as nat, false)
    } else if s[0] == '0' && s.len() > 1 && s[1] == 'o' {
        lex_digits(s, 2, 8, u64::MAX as nat, false)
    } else if s[0] == '0' && s.len() > 1 && s[1] == 'b' {
        lex_digits(s, 2, 2, u64::MAX as nat, false)
    } else {
        lex_digits(s, 0, 10, u64::MAX as nat, false)
    }
}

/// One punctuation character.
pub open spec fn lex_punct(s: Seq<char>) -> Lexed {
    if s.len() > 0 && is_punct(s[0]) {
        Lexed::Token(TokenView::Punct(s[0]), s.skip(1))
    } else {
        Lexed::Nothing
    }
}

/// Whether `token` is the bracket that closes a group of kind `closer`.
pub open spec fn closes(token: TokenView, closer: Option<GroupDelim>) -> bool {
    match (token, closer) {
        (TokenView::Punct(c), Some(delim)) => GroupDelim::spec_from_close(c) == Some(delim),
        _ => false,
    }
}

/// A group: an opening bracket, tokens, and the closing bracket of its kind.
pub open spec fn lex_group(s: Seq<char>) -> Lexed
    decreases s.len(), 0nat,
{
    if s.len() > 0 && GroupDelim::spec_from_open(s[0]) is Some {
        let delim = GroupDelim::spec_from_open(s[0])->0;
        match lex_seq(s.skip(1), Some(delim)) {
            None => Lexed::Failure,
            Some((inner, rest)) => Lexed::Token(TokenView::Group(delim, inner), rest),
        }
    } else {
        Lexed::Nothing
    }
}

/// The token at the head of a text: the first that applies of an identifier,
/// a number, a group and a punctuation character.
pub open spec fn lex_one(s: Seq<char>) -> Lexed
    decreases s.len(), 1nat,
{
    if !(lex_ident(s) is Nothing) {
        lex_ident(s)
    } else if !(lex_number(s) is Nothing) {
        lex_number(s)
    } else if !(lex_group(s) is Nothing) {
        lex_group(s)
    } else {
        lex_punct(s)
    }
}

/// The tokens of a text, and the text that is left.
///
/// At top level, where `closer` is `None`, the tokens end with the text or at
/// the first character that begins no token. In a group they end at the
/// closing bracket, which is required. White space between tokens is dropped.
/// `None` stands for a malformed text.
///
/// Every token takes at least one character (`lemma_lex_progress`), so the
/// test on the length of what follows a token never fails: it only shows that
/// the definition ends.
pub open spec fn lex_seq(s: Seq<char>, closer: Option<GroupDelim>) -> Option<
    (Seq<TokenView>, Seq<char>),
>
    decreases s.len(), 2nat,
{
    if s.len() > 0 && char_is_whitespace(s[0]) {
        lex_seq(s.skip(1), closer)
    } else {
        match lex_one(s) {
            Lexed::Failure => None,
            Lexed::Nothing => if closer is None {
                Some((Seq::empty(), s))
            } else {
                None
            },
            Lexed::Token(token, rest) => if closes(token, closer) {
                Some((Seq::empty(), rest))
            } else if rest.len() < s.len() {
                match lex_seq(rest, closer) {
                    None => None,
                    Some((tokens, left)) => Some((seq![token] + tokens, left)),
                }
            } else {
                None
            },
        }
    }
}

/// The tokens `first` followed by those of `then`, which may be a failure.
pub open spec fn prepend(first: Seq<TokenView>, then: Option<(Seq<TokenView>, Seq<char>)>)
    -> Option<(Seq<TokenView>, Seq<char>)> {
    match then {
        None => None,
        Some((tokens, left)) => Some((first + tokens, left)),
    }
}

/// Leading white space does not change the tokens of a text, and the text
/// without it begins with no white space.
pub proof fn lemma_lex_seq_skip_ws(s: Seq<char>, closer: Option<GroupDelim>)
    ensures
        lex_seq(s, closer) == lex_seq(skip_ws(s), closer),
        skip_ws(s).len() <= s.len(),
        skip_ws(s).len() > 0 ==> !char_is_whitespace(skip_ws(s)[0]),
    decreases s.len(),
{
    let p = |c: char| char_is_whitespace(c);
    lemma_run_len(s, p);
    if s.len() > 0 && char_is_whitespace(s[0]) {
        lemma_lex_seq_skip_ws(s.skip(1), closer);
        assert(s.drop_first() =~= s.skip(1));
        assert(skip_ws(s) =~= skip_ws(s.skip(1)));
    } else {
        assert(skip_ws(s) =~= s);
    }
}

/// The value of the digits up to some place never exceeds the value of them
/// all.
pub proof fn lemma_number_of_grows(digits: Seq<char>, radix: nat, upto: int)
    requires
        radix >= 1,
        0 <= upto <= digits.len(),
    ensures
        number_of(digits.take(upto), radix) <= number_of(digits, radix),
    decreases digits.len() - upto,
{
    if upto < digits.len() {
        let longer = digits.take(upto + 1);
        assert(longer.drop_last() =~= digits.take(upto));
        let v = number_of(digits.take(upto), radix);
        assert(v * radix >= v) by (nonlinear_arith)
            requires
                radix >= 1,
                v >= 0,
        ;
        lemma_number_of_grows(digits, radix, upto + 1);
    } else {
        assert(digits.take(upto) =~= digits);
    }
}

/// The number that the digits write, where it is at most `limit`.
fn digits_value(digits: &Vec<char>, radix: u64, limit: u64) -> (r: Option<u64>)
    requires
        radix == 2 || radix == 8 || radix == 10 || radix == 16,
        forall|i: int| 0 <= i < digits@.len() ==> is_digit_of(#[trigger] digits@[i], radix),
    ensures
        match r {
            Some(value) => value == number_of(digits@, radix as nat) && value <= limit,
            None => number_of(digits@, radix as nat) > limit,
        },
{
    let mut acc: u64 = 0;
    let mut i: usize = 0;
    while i < digits.len()
        invariant
            radix == 2 || radix == 8 || radix == 10 || radix == 16,
            forall|k: int| 0 <= k < digits@.len() ==> is_digit_of(#[trigger] digits@[k], radix),
            i <= digits.len(),
            acc == number_of(digits@.take(i as int), radix as nat),
            acc <= limit,
        decreases digits.len() - i,
    {
        let c: char = digits[i];
        assert(is_digit_of(digits@[i as int], radix));
        let d: u64 = value_of_digit(c);
        proof {
            assert(digits@.take(i + 1).drop_last() =~= digits@.take(i as int));
            assert(number_of(digits@.take(i + 1), radix as nat) == acc * radix + d);
            lemma_number_of_grows(digits@, radix as nat, i + 1);
        }
        if d > limit {
            return None;
        }
        let room: u64 = (limit - d) / radix;
        if acc > room {
            assert(acc * radix + d > limit) by (nonlinear_arith)
                requires
                    acc > (limit - d) / (radix as int),
                    radix >= 1,
                    d <= limit,
            ;
            return None;
        }
        assert(acc * radix + d <= limit) by (nonlinear_arith)
            requires
                acc <= (limit - d) / (radix as int),
                radix >= 1,
                d <= limit,
        ;
        acc = acc * radix + d;
        i += 1;
    }
    assert(digits@.take(digits@.len() as int) =~= digits@);
    Some(acc)
}

/// Takes the leading white space out and says how long it was.
fn skip_whitespace(scanner: &mut Scanner<char>) -> (n: usize)
    ensures
        final(scanner)@ == skip_ws(old(scanner)@),
        n == old(scanner)@.len() - final(scanner)@.len(),
{
    let taken = scanner.take_while(
        |c: &char| -> (b: bool)
            ensures
                b == char_is_whitespace(*c)
        {
            c.is_whitespace()
        },
    );
    proof {
        let p = |c: char| char_is_whitespace(c);
        assert forall|i: int| 0 <= i < taken@.len() implies p(#[trigger] old(scanner)@[i]) by {
            assert(old(scanner)@[i] == taken@[i]);
        }
        if taken@.len() < old(scanner)@.len() {
            assert(old(scanner)@[taken@.len() as int] == scanner@[0]);
        }
        lemma_run_is(old(scanner)@, p, taken@.len());
        assert(scanner@ =~= old(scanner)@.skip(taken@.len() as int));
    }
    taken.len()
}

/// Takes the run of digits of base `radix` out of the scanner.
fn take_digits(scanner: &mut Scanner<char>, radix: u64) -> (digits: Vec<char>)
    ensures
        digits@.len() == run_len(old(scanner)@, |c: char| is_digit_of(c, radix)),
        digits@.len() <= old(scanner)@.len(),
        digits@ == old(scanner)@.take(digits@.len() as int),
        final(scanner)@ == old(scanner)@.skip(digits@.len() as int),
        forall|i: int| 0 <= i < digits@.len() ==> is_digit_of(#[trigger] digits@[i], radix),
{
    let digits = scanner.take_while(
        |c: &char| -> (b: bool)
            ensures
                b == is_digit_of(*c, radix)
        {
            is_digit_in(*c, radix)
        },
    );
    proof {
        let p = |c: char| is_digit_of(c, radix);
        assert forall|i: int| 0 <= i < digits@.len() implies p(#[trigger] old(scanner)@[i]) by {
            assert(old(scanner)@[i] == digits@[i]);
        }
        if digits@.len() < old(scanner)@.len() {
            assert(old(scanner)@[digits@.len() as int] == scanner@[0]);
        }
        lemma_run_is(old(scanner)@, p, digits@.len());
        assert(scanner@ =~= old(scanner)@.skip(digits@.len() as int));
        assert(digits@ =~= old(scanner)@.take(digits@.len() as int));
    }
    digits
}

/// Lexes an identifier, if one begins here.
fn match_identifier(scanner: &mut Scanner<char>) -> (r: Option<Token>)
    ensures
        match lex_ident(old(scanner)@) {
            Lexed::Token(token, rest) => r matches Some(t) && t@ == token && final(scanner)@
                == rest && rest.len() < old(scanner)@.len(),
            _ => r is None && final(scanner)@ == old(scanner)@,
        },
{
    let begins = scanner.test(
        |c: &char| -> (b: bool)
            ensures
                b == is_ident_start(*c)
        {
            c.is_alphabetic() || *c == '_'
        },
    );
    if !begins {
        return None;
    }
    let chars = scanner.take_while(
        |c: &char| -> (b: bool)
            ensures
                b == is_ident_char(*c)
        {
            c.is_alphabetic() || *c == '_' || c.is_alphanumeric()
        },
    );
    proof {
        let p = |c: char| is_ident_char(c);
        assert forall|i: int| 0 <= i < chars@.len() implies p(#[trigger] old(scanner)@[i]) by {
            assert(old(scanner)@[i] == chars@[i]);
        }
        if chars@.len() < old(scanner)@.len() {
            assert(old(scanner)@[chars@.len() as int] == scanner@[0]);
        }
        lemma_run_is(old(scanner)@, p, chars@.len());
        assert(scanner@ =~= old(scanner)@.skip(chars@.len() as int));
        assert(chars@ =~= old(scanner)@.take(chars@.len() as int));
    }
    Some(Token::Ident(string_of(&chars)))
}

/// The number token that the digits write, or the failure that they make.
fn number_token(digits: &Vec<char>, radix: u64, negative: bool) -> (r: Result<
    Option<Token>,
    Error,
>)
    requires
        radix == 2 || radix == 8 || radix == 10 || radix == 16,
        forall|i: int| 0 <= i < digits@.len() ==> is_digit_of(#[trigger] digits@[i], radix),
    ensures
        ({
            let limit = if negative {
                i64::MAX as nat
            } else {
                u64::MAX as nat
            };
            let value = number_of(digits@, radix as nat);
            if value > limit {
                r matches Err(Error::EOL)
            } else if negative {
                r matches Ok(Some(t)) && t@ == TokenView::Number(negated(value))
            } else {
                r matches Ok(Some(t)) && t@ == TokenView::Number(value as u64)
            }
        }),
{
    let limit: u64 = if negative {
        0x7FFF_FFFF_FFFF_FFFF
    } else {
        u64::MAX
    };
    match digits_value(digits, radix, limit) {
        None => Err(Error::EOL),
        Some(value) => {
            if negative {
                Ok(Some(Token::Number(0u64.wrapping_sub(value))))
            } else {
                Ok(Some(Token::Number(value)))
            }
        },
    }
}

/// Lexes a number or a lone minus sign, if one begins here.
fn match_number(scanner: &mut Scanner<char>) -> (r: Result<Option<Token>, Error>)
    ensures
        final(scanner)@.len() <= old(scanner)@.len(),
        match lex_number(old(scanner)@) {
            Lexed::Failure => r matches Err(Error::EOL),
            Lexed::Nothing => r matches Ok(None) && final(scanner)@ == old(scanner)@,
            Lexed::Token(token, rest) => r matches Ok(Some(t)) && t@ == token && final(scanner)@
                == rest && rest.len() < old(scanner)@.len(),
        },
{
    let ghost s = scanner@;
    let first: char = match scanner.peek() {
        Some(c) => *c,
        None => {
            return Ok(None);
        },
    };
    if first == '-' {
        let _ = scanner.pop();
        assert(scanner@ =~= s.skip(1));
        let digits = take_digits(scanner, 10);
        proof {
            lemma_run_len(s.skip(1), |c: char| is_digit_of(c, 10));
            assert(s.skip(1).skip(digits@.len() as int) =~= s.skip(1 + digits@.len() as int));
            assert(s.skip(1).take(digits@.len() as int) =~= s.subrange(
                1,
                1 + digits@.len() as int,
            ));
            if s.len() > 1 {
                assert(s.skip(1)[0] == s[1]);
            }
        }
        if digits.len() == 0 {
            return Ok(Some(Token::Punct('-')));
        }
        return number_token(&digits, 10, true);
    }
    if !is_ascii_digit(first) {
        return Ok(None);
    }
    let digits = take_digits(scanner, 10);
    proof {
        lemma_run_len(s, |c: char| is_digit_of(c, 10));
        assert(s.skip(0) =~= s);
        assert(s.take(digits@.len() as int) =~= s.subrange(0, 0 + digits@.len() as int));
        assert(digits@.len() >= 1);
    }
    let radix: u64 = if digits.len() == 1 && first == '0' {
        match scanner.peek() {
            Some(c) => {
                if *c == 'x' {
                    16
                } else if *c == 'o' {
                    8
                } else if *c == 'b' {
                    2
                } else {
                    10
                }
            },
            None => 10,
        }
    } else {
        10
    };
    if radix == 10 {
        proof {
            if s[0] == '0' && s.len() > 1 && (s[1] == 'x' || s[1] == 'o' || s[1] == 'b') {
                assert(!is_digit_of(s[1], 10));
                assert(digits@.len() == 1);
                assert(scanner@[0] == s[1]);
            }
        }
        return number_token(&digits, 10, false);
    }
    assert(s.len() >= 2 && scanner@ =~= s.skip(1));
    let _ = scanner.pop();
    assert(scanner@ =~= s.skip(2));
    let digits = take_digits(scanner, radix);
    proof {
        assert(s.skip(2).skip(digits@.len() as int) =~= s.skip(2 + digits@.len() as int));
        assert(s.skip(2).take(digits@.len() as int) =~= s.subrange(2, 2 + digits@.len() as int));
    }
    if digits.len() == 0 {
        return Err(Error::EOL);
    }
    number_token(&digits, radix, false)
}

/// Lexes one punctuation character, if one stands here.
fn match_punct(scanner: &mut Scanner<char>) -> (r: Option<Token>)
    ensures
        match lex_punct(old(scanner)@) {
            Lexed::Token(token, rest) => r matches Some(t) && t@ == token && final(scanner)@
                == rest && rest.len() < old(scanner)@.len(),
            _ => r is None && final(scanner)@ == old(scanner)@,
        },
{
    let taken = scanner.take(
        |c: &char| -> (b: bool)
            ensures
                b == is_punct(*c)
        {
            is_ascii_punctuation(*c)
        },
    );
    assert(old(scanner)@.len() > 0 ==> old(scanner)@.drop_first() =~= old(scanner)@.skip(1));
    match taken {
        Some(c) => Some(Token::Punct(c)),
        None => None,
    }
}

/// Whether `token` is the bracket that closes a group of kind `delim`.
fn is_closer(token: &Token, delim: GroupDelim) -> (b: bool)
    ensures
        b == closes(token@, Some(delim)),
{
    match token {
        Token::Punct(c) => match GroupDelim::from_close(c) {
            Some(close) => close == delim,
            None => false,
        },
        _ => false,
    }
}

/// Lexes a group, if an opening bracket stands here.
fn match_group(scanner: &mut Scanner<char>) -> (r: Result<Option<Token>, Error>)
    ensures
        final(scanner)@.len() <= old(scanner)@.len(),
        match lex_group(old(scanner)@) {
            Lexed::Failure => r matches Err(Error::EOL),
            Lexed::Nothing => r matches Ok(None) && final(scanner)@ == old(scanner)@,
            Lexed::Token(token, rest) => r matches Ok(Some(t)) && t@ == token && final(scanner)@
                == rest && rest.len() < old(scanner)@.len(),
        },
    decreases old(scanner)@.len(), 0nat,
{
    let ghost s = scanner@;
    let opened = scanner.transform(
        |c: &char| -> (d: Option<GroupDelim>)
            ensures
                d == GroupDelim::spec_from_open(*c)
        {
            GroupDelim::from_open(c)
        },
    );
    let delim = match opened {
        Some(delim) => delim,
        None => {
            return Ok(None);
        },
    };
    assert(scanner@ =~= s.skip(1));
    let ghost closer = Some(delim);
    let mut inside: Vec<Token> = Vec::new();
    loop
        invariant
            s == old(scanner)@,
            closer == Some(delim),
            s.len() > 0,
            GroupDelim::spec_from_open(s[0]) == Some(delim),
            scanner@.len() < s.len(),
            lex_seq(s.skip(1), closer) == prepend(tokens_view(inside@), lex_seq(scanner@, closer)),
        decreases scanner@.len(),
    {
        let ghost before = scanner@;
        proof {
            lemma_lex_seq_skip_ws(before, closer);
        }
        let token = match get_token(scanner) {
            Ok(Some(token)) => token,
            Ok(None) => {
                return Err(Error::EOL);
            },
            Err(e) => {
                return Err(e);
            },
        };
        if is_closer(&token, delim) {
            proof {
                assert(tokens_view(inside@) + Seq::<TokenView>::empty() =~= tokens_view(inside@));
                lemma_group_view(delim, inside);
            }
            return Ok(Some(Token::Group(delim, inside)));
        }
        let ghost shown = tokens_view(inside@);
        let ghost view = token@;
        inside.push(token);
        proof {
            assert(tokens_view(inside@) =~= shown.push(view));
            match lex_seq(scanner@, closer) {
                None => {},
                Some((tokens, left)) => {
                    assert(shown + (seq![view] + tokens) =~= shown.push(view) + tokens);
                },
            }
        }
    }
}

/// Lexes the next token after any white space.
///
/// `Ok(None)` says that no token begins at the first character that is not
/// white space, or that the text has ended.
fn get_token(scanner: &mut Scanner<char>) -> (r: Result<Option<Token>, Error>)
    ensures
        final(scanner)@.len() <= old(scanner)@.len(),
        match lex_one(skip_ws(old(scanner)@)) {
            Lexed::Failure => r matches Err(Error::EOL),
            Lexed::Nothing => r matches Ok(None) && final(scanner)@ == skip_ws(old(scanner)@),
            Lexed::Token(token, rest) => r matches Ok(Some(t)) && t@ == token && final(scanner)@
                == rest && rest.len() < skip_ws(old(scanner)@).len(),
        },
    decreases old(scanner)@.len(), 1nat,
{
    let _ = skip_whitespace(scanner);
    match match_identifier(scanner) {
        Some(token) => {
            return Ok(Some(token));
        },
        None => {},
    }
    match match_number(scanner) {
        Ok(Some(token)) => {
            return Ok(Some(token));
        },
        Ok(None) => {},
        Err(e) => {
            return Err(e);
        },
    }
    match match_group(scanner) {
        Ok(Some(token)) => {
            return Ok(Some(token));
        },
        Ok(None) => {},
        Err(e) => {
            return Err(e);
        },
    }
    Ok(match_punct(scanner))
}

/// Where the comment stripper stands: in code, in a comment that runs to the
/// end of the line, or in a comment that runs to its closing mark.
#[derive(Debug, Clone, Copy, PartialEq, Eq, Structural)]
pub enum CommentMode {
    Code,
    Line,
    Block,
}

/// `rest` with `c` before it, where `rest` is not a failure.
pub open spec fn with_first(c: char, rest: Option<Seq<char>>) -> Option<Seq<char>> {
    match rest {
        None => None,
        Some(text) => Some(seq![c] + text),
    }
}

/// `rest` with `before` before it, where `rest` is not a failure.
pub open spec fn with_before(before: Seq<char>, rest: Option<Seq<char>>) -> Option<Seq<char>> {
    match rest {
        None => None,
        Some(text) => Some(before + text),
    }
}

/// The text `s`, read in the given mode, without its comments.
///
/// Two slashes open a comment that ends before the next line feed, which
/// stays. A slash and a star open a comment that ends after the next star and
/// slash; a single space takes its place. A comment of the second kind that
/// is never closed makes the text malformed.
pub open spec fn strip_from(s: Seq<char>, mode: CommentMode) -> Option<Seq<char>>
    decreases s.len(),
{
    match mode {
        CommentMode::Code => {
            if s.len() == 0 {
                Some(Seq::empty())
            } else if s.len() >= 2 && s[0] == '/' && s[1] == '/' {
                strip_from(s.skip(2), CommentMode::Line)
            } else if s.len() >= 2 && s[0] == '/' && s[1] == '*' {
                with_first(' ', strip_from(s.skip(2), CommentMode::Block))
            } else {
                with_first(s[0], strip_from(s.skip(1), CommentMode::Code))
            }
        },
        CommentMode::Line => {
            if s.len() == 0 {
                Some(Seq::empty())
            } else if s[0] == '\n' {
                with_first('\n', strip_from(s.skip(1), CommentMode::Code))
            } else {
                strip_from(s.skip(1), CommentMode::Line)
            }
        },
        CommentMode::Block => {
            if s.len() == 0 {
                None
            } else if s.len() >= 2 && s[0] == '*' && s[1] == '/' {
                strip_from(s.skip(2), CommentMode::Code)
            } else {
                strip_from(s.skip(1), CommentMode::Block)
            }
        },
    }
}

/// The text without its comments, or `None` where a comment is not closed.
pub open spec fn spec_strip_comments(s: Seq<char>) -> Option<Seq<char>> {
    strip_from(s, CommentMode::Code)
}

/// The tokens of a source text, or `None` where the text is malformed: a
/// comment or a group is not closed, or a number is not one.
pub open spec fn spec_tokenize(code: Seq<char>) -> Option<Seq<TokenView>> {
    match spec_strip_comments(code) {
        None => None,
        Some(text) => match lex_seq(text, None) {
            None => None,
            Some((tokens, _)) => Some(tokens),
        },
    }
}

/// Removes the comments from a text.
pub fn strip_comments(text: &Vec<char>) -> (r: Result<Vec<char>, Error>)
    ensures
        match spec_strip_comments(text@) {
            Some(stripped) => r matches Ok(out) && out@ == stripped,
            None => r matches Err(Error::EOL),
        },
{
    let mut out: Vec<char> = Vec::new();
    let mut mode = CommentMode::Code;
    let mut i: usize = 0;
    assert(text@.skip(0) =~= text@);
    assert(with_before(out@, strip_from(text@, mode)) == strip_from(text@, mode)) by {
        match strip_from(text@, mode) {
            Some(rest) => {
                assert(out@ + rest =~= rest);
            },
            None => {},
        }
    }
    while i < text.len()
        invariant
            i <= text.len(),
            spec_strip_comments(text@) == with_before(out@, strip_from(text@.skip(i as int), mode)),
        decreases text.len() - i,
    {
        let ghost s = text@.skip(i as int);
        let ghost before = out@;
        let c: char = text[i];
        let paired: bool = i + 1 < text.len();
        let second: char = if paired {
            text[i + 1]
        } else {
            ' '
        };
        assert(s[0] == c);
        assert(paired ==> s[1] == second);
        assert(s.skip(1) =~= text@.skip(i + 1));
        assert(paired ==> s.skip(2) =~= text@.skip(i + 2));
        match mode {
            CommentMode::Code => {
                if paired && c == '/' && second == '/' {
                    mode = CommentMode::Line;
                    i += 2;
                } else if paired && c == '/' && second == '*' {
                    out.push(' ');
                    mode = CommentMode::Block;
                    i += 2;
                } else {
                    out.push(c);
                    i += 1;
                }
            },
            CommentMode::Line => {
                if c == '\n' {
                    out.push(c);
                    mode = CommentMode::Code;
                }
                i += 1;
            },
            CommentMode::Block => {
                if paired && c == '*' && second == '/' {
                    mode = CommentMode::Code;
                    i += 2;
                } else {
                    i += 1;
                }
            },
        }
        proof {
            match strip_from(text@.skip(i as int), mode) {
                Some(rest) => {
                    if out@.len() > before.len() {
                        assert(before + (seq![out@.last()] + rest) =~= out@ + rest);
                    }
                },
                None => {},
            }
        }
    }
    assert(text@.skip(i as int).len() == 0);
    match mode {
        CommentMode::Block => Err(Error::EOL),
        _ => {
            assert(out@ + Seq::<char>::empty() =~= out@);
            Ok(out)
        },
    }
}

/// Cuts a source text into tokens, or fails with `Error::EOL` where the text
/// is malformed.
pub fn try_tokenize(code: &str) -> (r: Result<Vec<Token>, Error>)
    ensures
        match spec_tokenize(code@) {
            Some(tokens) => r matches Ok(toks) && tokens_view(toks@) == tokens,
            None => r matches Err(Error::EOL),
        },
{
    let chars = chars_of(code);
    let text = strip_comments(&chars)?;
    let mut scanner = Scanner::new(text);
    let ghost all = scanner@;
    let mut toks: Vec<Token> = Vec::new();
    assert(lex_seq(all, None) == prepend(tokens_view(toks@), lex_seq(scanner@, None))) by {
        match lex_seq(all, None) {
            Some((tokens, left)) => {
                assert(tokens_view(toks@) + tokens =~= tokens);
            },
            None => {},
        }
    }
    loop
        invariant
            spec_strip_comments(code@) == Some(all),
            lex_seq(all, None) == prepend(tokens_view(toks@), lex_seq(scanner@, None)),
        decreases scanner@.len(),
    {
        proof {
            lemma_lex_seq_skip_ws(scanner@, None);
        }
        let token = match get_token(&mut scanner) {
            Ok(Some(token)) => token,
            Ok(None) => {
                assert(tokens_view(toks@) + Seq::<TokenView>::empty() =~= tokens_view(toks@));
                return Ok(toks);
            },
            Err(e) => {
                return Err(e);
            },
        };
        let ghost shown = tokens_view(toks@);
        let ghost view = token@;
        toks.push(token);
        proof {
            assert(tokens_view(toks@) =~= shown.push(view));
            match lex_seq(scanner@, None) {
                None => {},
                Some((tokens, left)) => {
                    assert(shown + (seq![view] + tokens) =~= shown.push(view) + tokens);
                },
            }
        }
    }
}

/// Cuts a well-formed source text into tokens.
pub fn tokenize(code: &str) -> (toks: Vec<Token>)
    requires
        spec_tokenize(code@) is Some,
    ensures
        tokens_view(toks@) == spec_tokenize(code@)->0,
{
    match try_tokenize(code) {
        Ok(toks) => toks,
        Err(_) => vstd::pervasive::unreached(),
    }
}

/// The text that the `Debug` format of the standard library writes for a
/// token.
pub uninterp spec fn token_debug_text(token: TokenView) -> Seq<char>;

/// The text that shows a token in an error.
///
/// `format!` with `{:?}` writes a token as its derived `Debug` impl lays it
/// out: the variant's name and its fields. The text depends on nothing but
/// the token's content; the contract gives it a name and says no more.
#[verifier::external_body]
pub(crate) fn debug_text(token: &Token) -> (text: String)
    ensures
        text@ == token_debug_text(token@),
{
    format!("{token:?}")
}

/// Whether a token is the punctuation character `c`.
pub fn is_punct_token(token: &Token, c: char) -> (b: bool)
    ensures
        b == (token@ == TokenView::Punct(c)),
{
    match token {
        Token::Punct(p) => *p == c,
        _ => false,
    }
}

/// A run of digits that makes a number is not empty and lies in the text.
pub proof fn lemma_lex_digits_progress(
    s: Seq<char>,
    from: int,
    radix: u64,
    limit: nat,
    negative: bool,
)
    requires
        0 <= from <= s.len(),
    ensures
        lex_digits(s, from, radix, limit, negative) matches Lexed::Token(_, rest) ==> rest.len()
            < s.len() - from,
{
    lemma_run_len(s.skip(from), |c: char| is_digit_of(c, radix));
}

/// An identifier, a number and a punctuation character each take at least
/// one character.
pub proof fn lemma_lex_flat_progress(s: Seq<char>)
    ensures
        lex_ident(s) matches Lexed::Token(_, rest) ==> rest.len() < s.len(),
        lex_number(s) matches Lexed::Token(_, rest) ==> rest.len() < s.len(),
        lex_punct(s) matches Lexed::Token(_, rest) ==> rest.len() < s.len(),
{
    lemma_run_len(s, |c: char| is_ident_char(c));
    if s.len() > 0 {
        lemma_lex_digits_progress(s, 0, 10, u64::MAX as nat, false);
        lemma_lex_digits_progress(s, 1, 10, i64::MAX as nat, true);
    }
    if s.len() > 1 {
        lemma_lex_digits_progress(s, 2, 16, u64::MAX as nat, false);
        lemma_lex_digits_progress(s, 2, 8, u64::MAX as nat, false);
        lemma_lex_digits_progress(s, 2, 2, u64::MAX as nat, false);
    }
}

/// Every token takes at least one character, and what is left after a
/// sequence of tokens is never longer than the text.
pub proof fn lemma_lex_progress(s: Seq<char>, closer: Option<GroupDelim>)
    ensures
        lex_one(s) matches Lexed::Token(_, rest) ==> rest.len() < s.len(),
        lex_seq(s, closer) matches Some((_, left)) ==> left.len() <= s.len(),
    decreases s.len(),
{
    lemma_lex_flat_progress(s);
    if s.len() > 0 {
        let tail = s.skip(1);
        lemma_lex_progress(tail, closer);
        match GroupDelim::spec_from_open(s[0]) {
            Some(delim) => {
                lemma_lex_progress(tail, Some(delim));
                assert(lex_group(s) matches Lexed::Token(_, rest) ==> rest.len() < s.len());
            },
            None => {
                assert(lex_group(s) is Nothing);
            },
        }
    } else {
        assert(lex_group(s) is Nothing);
    }
    assert(lex_one(s) matches Lexed::Token(_, rest) ==> rest.len() < s.len());
    if !(s.len() > 0 && char_is_whitespace(s[0])) {
        match lex_one(s) {
            Lexed::Token(token, rest) => {
                if !closes(token, closer) && rest.len() < s.len() {
                    lemma_lex_progress(rest, closer);
                }
            },
            _ => {},
        }
    }
}

} // verus!

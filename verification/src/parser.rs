//! The parser: from tokens to expressions.

use vstd::prelude::*;
use crate::chars::str_eq;
use crate::error::{Error, ErrorView};
use crate::expr::{exprs_view, Expr, ExprView};
use crate::scanner::Scanner;
use crate::token::{
    debug_text, is_punct_token, spec_tokenize, token_debug_text, tokens_view, try_tokenize, Token,
    TokenView,
};

verus! {

/// The two operands of an instruction named `ctx`: a token, a comma and a
/// token. `tokens` are those after the mnemonic.
pub open spec fn two_params(ctx: Seq<char>, tokens: Seq<TokenView>) -> Result<
    (TokenView, TokenView),
    ErrorView,
> {
    if tokens.len() < 2 {
        Err(ErrorView::MissingToken(ctx))
    } else if tokens[1] != TokenView::Punct(',') {
        Err(ErrorView::UnexpectedToken(ctx, token_debug_text(tokens[1])))
    } else if tokens.len() < 3 {
        Err(ErrorView::MissingToken(ctx))
    } else {
        Ok((tokens[0], tokens[2]))
    }
}

/// `rest` with `first` before it, where `rest` is not a failure.
pub open spec fn expr_then(first: ExprView, rest: Result<Seq<ExprView>, ErrorView>) -> Result<
    Seq<ExprView>,
    ErrorView,
> {
    match rest {
        Err(e) => Err(e),
        Ok(exprs) => Ok(seq![first] + exprs),
    }
}

/// `rest` with `before` before it, where `rest` is not a failure.
pub open spec fn exprs_then(before: Seq<ExprView>, rest: Result<Seq<ExprView>, ErrorView>)
    -> Result<Seq<ExprView>, ErrorView> {
    match rest {
        Err(e) => Err(e),
        Ok(exprs) => Ok(before + exprs),
    }
}

/// The expressions that a sequence of tokens makes.
///
/// An identifier with a colon after it is a label. Any other identifier is a
/// mnemonic: `nop`, which stands alone, or `mov`, which takes two operands.
/// An operand is a single token. A statement cannot begin with anything but
/// an identifier.
pub open spec fn parse_tokens(tokens: Seq<TokenView>) -> Result<Seq<ExprView>, ErrorView>
    decreases tokens.len(),
{
    if tokens.len() == 0 {
        Ok(Seq::empty())
    } else {
        match tokens[0] {
            TokenView::Ident(name) => {
                if tokens.len() > 1 && tokens[1] == TokenView::Punct(':') {
                    expr_then(ExprView::Label(name), parse_tokens(tokens.skip(2)))
                } else if name == "nop"@ {
                    expr_then(ExprView::Nop, parse_tokens(tokens.skip(1)))
                } else if name == "mov"@ {
                    match two_params(name, tokens.skip(1)) {
                        Err(e) => Err(e),
                        Ok((src, dest)) => expr_then(
                            ExprView::Mov(src, dest),
                            parse_tokens(tokens.skip(4)),
                        ),
                    }
                } else {
                    Err(ErrorView::UnknownInstruction(name))
                }
            },
            other => Err(ErrorView::UnexpectedToken("parse_toks"@, token_debug_text(other))),
        }
    }
}

/// The expressions of a source text. A text that cannot be cut into tokens
/// fails with `EOL`.
pub open spec fn spec_parse(code: Seq<char>) -> Result<Seq<ExprView>, ErrorView> {
    match spec_tokenize(code) {
        None => Err(ErrorView::EOL),
        Some(tokens) => parse_tokens(tokens),
    }
}

/// Reads the two operands of the instruction named `ctx`.
fn parse_two_params(toks: &mut Scanner<Token>, ctx: String) -> (r: Result<Expr, Error>)
    ensures
        final(toks)@.len() <= old(toks)@.len(),
        match two_params(ctx@, tokens_view(old(toks)@)) {
            Err(e) => r matches Err(err) && err@ == e,
            Ok((src, dest)) => r matches Ok(expr) && expr@ == ExprView::Mov(src, dest)
                && final(toks)@ == old(toks)@.skip(3),
        },
{
    let ghost all = toks@;
    let t1 = match toks.pop() {
        Some(token) => token,
        None => {
            return Err(Error::MissingToken(ctx));
        },
    };
    let comma = match toks.pop() {
        Some(token) => token,
        None => {
            return Err(Error::MissingToken(ctx));
        },
    };
    assert(comma@ == tokens_view(all)[1]);
    if !is_punct_token(&comma, ',') {
        let shown = debug_text(&comma);
        return Err(Error::UnexpectedToken(ctx, shown));
    }
    let t2 = match toks.pop() {
        Some(token) => token,
        None => {
            return Err(Error::MissingToken(ctx));
        },
    };
    assert(toks@ =~= all.skip(3));
    assert(t1@ == tokens_view(all)[0]);
    assert(t2@ == tokens_view(all)[2]);
    Ok(Expr::Mov(t1, t2))
}

/// What the rest of an instruction adds to its mnemonic `name`.
pub open spec fn instruction_of(name: Seq<char>, tokens: Seq<TokenView>) -> Result<
    (ExprView, nat),
    ErrorView,
> {
    if name == "nop"@ {
        Ok((ExprView::Nop, 0))
    } else if name == "mov"@ {
        match two_params(name, tokens) {
            Err(e) => Err(e),
            Ok((src, dest)) => Ok((ExprView::Mov(src, dest), 3)),
        }
    } else {
        Err(ErrorView::UnknownInstruction(name))
    }
}

/// Parses the instruction whose mnemonic is `ident`.
fn parse_instruction(ident: String, toks: &mut Scanner<Token>) -> (r: Result<Expr, Error>)
    ensures
        final(toks)@.len() <= old(toks)@.len(),
        match instruction_of(ident@, tokens_view(old(toks)@)) {
            Err(e) => r matches Err(err) && err@ == e,
            Ok((expr, taken)) => r matches Ok(parsed) && parsed@ == expr
                && final(toks)@ == old(toks)@.skip(taken as int),
        },
{
    if str_eq(ident.as_str(), "nop") {
        assert(toks@.skip(0) =~= toks@);
        Ok(Expr::Nop)
    } else if str_eq(ident.as_str(), "mov") {
        parse_two_params(toks, ident)
    } else {
        Err(Error::UnknownInstruction(ident))
    }
}

/// What a statement that begins with `first` is, and how many of the tokens
/// after `first` belong to it.
pub open spec fn statement_of(first: TokenView, tokens: Seq<TokenView>) -> Result<
    (ExprView, nat),
    ErrorView,
> {
    match first {
        TokenView::Ident(name) => {
            if tokens.len() > 0 && tokens[0] == TokenView::Punct(':') {
                Ok((ExprView::Label(name), 1))
            } else {
                instruction_of(name, tokens)
            }
        },
        other => Err(ErrorView::UnexpectedToken("parse_toks"@, token_debug_text(other))),
    }
}

/// Parses the statement that begins with the token `t`.
fn parse_toks(t: Token, toks: &mut Scanner<Token>) -> (r: Result<Expr, Error>)
    ensures
        final(toks)@.len() <= old(toks)@.len(),
        match statement_of(t@, tokens_view(old(toks)@)) {
            Err(e) => r matches Err(err) && err@ == e,
            Ok((expr, taken)) => r matches Ok(parsed) && parsed@ == expr
                && final(toks)@ == old(toks)@.skip(taken as int),
        },
{
    match t {
        Token::Ident(ident) => {
            let colon = match toks.peek() {
                Some(next) => is_punct_token(next, ':'),
                None => false,
            };
            assert(toks@.len() > 0 ==> toks@[0]@ == tokens_view(toks@)[0]);
            if colon {
                let _ = toks.pop();
                assert(toks@ =~= old(toks)@.skip(1));
                Ok(Expr::Label(ident))
            } else {
                parse_instruction(ident, toks)
            }
        },
        other => {
            let shown = debug_text(&other);
            Err(Error::UnexpectedToken("parse_toks".to_owned(), shown))
        },
    }
}

/// A statement and the statements after it are the statements of the whole.
pub proof fn lemma_parse_step(tokens: Seq<TokenView>)
    requires
        tokens.len() > 0,
    ensures
        parse_tokens(tokens) == match statement_of(tokens[0], tokens.skip(1)) {
            Err(e) => Err::<Seq<ExprView>, ErrorView>(e),
            Ok((expr, taken)) => expr_then(expr, parse_tokens(tokens.skip(1 + taken as int))),
        },
{
    let rest = tokens.skip(1);
    if rest.len() > 0 {
        assert(rest[0] == tokens[1]);
    }
    if rest.len() > 1 {
        assert(rest[1] == tokens[2]);
    }
    if rest.len() > 2 {
        assert(rest[2] == tokens[3]);
    }
}

/// Parses the expressions that a sequence of tokens makes.
pub fn parse_token_list(tokens: Vec<Token>) -> (r: Result<Vec<Expr>, Error>)
    ensures
        match parse_tokens(tokens_view(tokens@)) {
            Err(e) => r matches Err(err) && err@ == e,
            Ok(exprs) => r matches Ok(parsed) && exprs_view(parsed@) == exprs,
        },
{
    let ghost all = tokens_view(tokens@);
    let mut toks = Scanner::new(tokens);
    let mut exprs: Vec<Expr> = Vec::new();
    assert(parse_tokens(all) == exprs_then(exprs_view(exprs@), parse_tokens(tokens_view(toks@))))
        by {
        match parse_tokens(all) {
            Ok(found) => {
                assert(exprs_view(exprs@) + found =~= found);
            },
            Err(_) => {},
        }
    }
    loop
        invariant
            all == tokens_view(tokens@),
            parse_tokens(all) == exprs_then(
                exprs_view(exprs@),
                parse_tokens(tokens_view(toks@)),
            ),
        decreases toks@.len(),
    {
        let ghost before = toks@;
        let t = match toks.pop() {
            Some(t) => t,
            None => {
                assert(exprs_view(exprs@) + Seq::<ExprView>::empty() =~= exprs_view(exprs@));
                return Ok(exprs);
            },
        };
        proof {
            lemma_parse_step(tokens_view(before));
            assert(tokens_view(before).skip(1) =~= tokens_view(toks@));
        }
        let ghost after_first = toks@;
        let expr = match parse_toks(t, &mut toks) {
            Ok(expr) => expr,
            Err(e) => {
                return Err(e);
            },
        };
        let ghost shown = exprs_view(exprs@);
        let ghost view = expr@;
        exprs.push(expr);
        proof {
            let taken = before.len() - 1 - toks@.len();
            assert(tokens_view(toks@) =~= tokens_view(before).skip(1 + taken));
            assert(exprs_view(exprs@) =~= shown.push(view));
            match parse_tokens(tokens_view(toks@)) {
                Err(_) => {},
                Ok(found) => {
                    assert(shown + (seq![view] + found) =~= shown.push(view) + found);
                },
            }
        }
    }
}

/// Parses a source text into its expressions.
pub fn parse(code: &str) -> (r: Result<Vec<Expr>, Error>)
    ensures
        match spec_parse(code@) {
            Err(e) => r matches Err(err) && err@ == e,
            Ok(exprs) => r matches Ok(parsed) && exprs_view(parsed@) == exprs,
        },
{
    let toks = match try_tokenize(code) {
        Ok(toks) => toks,
        Err(e) => {
            return Err(e);
        },
    };
    parse_token_list(toks)
}

} // verus!

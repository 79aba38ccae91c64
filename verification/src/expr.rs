//! Expressions: the statements of a source text.

use vstd::prelude::*;
use crate::assembler::{CompileContext, ContextView, LabelRef};
use crate::error::{Error, ErrorView};
use crate::instruction::{Instruction, ParamIdx};
use crate::token::{
    debug_text, lemma_group_view, token_debug_text, tokens_view, GroupDelim, Token, TokenView,
};
use crate::value::{Immediate, Register, Value, Width};

verus! {

/// One statement of a source text.
#[derive(Debug, PartialEq)]
pub enum Expr {
    /// A label: a name for the place of the next instruction.
    Label(String),
    /// The instruction that does nothing.
    Nop,
    /// A move, with the tokens of its source and of its destination.
    Mov(Token, Token),
}

impl Clone for Expr {
    /// A copy with the same view.
    fn clone(&self) -> (copy: Self)
        ensures
            copy@ == self@,
    {
        match self {
            Expr::Label(name) => Expr::Label(name.clone()),
            Expr::Nop => Expr::Nop,
            Expr::Mov(src, dest) => Expr::Mov(src.clone(), dest.clone()),
        }
    }
}

/// An expression as a mathematical value.
pub enum ExprView {
    Label(Seq<char>),
    Nop,
    Mov(TokenView, TokenView),
}

impl View for Expr {
    type V = ExprView;

    open spec fn view(&self) -> ExprView {
        match self {
            Expr::Label(name) => ExprView::Label(name@),
            Expr::Nop => ExprView::Nop,
            Expr::Mov(src, dest) => ExprView::Mov(src@, dest@),
        }
    }
}

/// The views of a sequence of expressions.
pub open spec fn exprs_view(exprs: Seq<Expr>) -> Seq<ExprView> {
    Seq::new(exprs.len(), |i: int| exprs[i]@)
}

/// What an operand is, as far as the choice of the instruction goes.
#[derive(Debug, Clone, Copy, PartialEq, Eq, Structural)]
pub enum Shape {
    /// A number.
    Imm(u64),
    /// A number in square brackets: the address of the datum.
    ImmPtr(u64),
    /// A register.
    Reg(Register),
    /// A register in square brackets: it holds the address of the datum.
    RegPtr(Register),
    /// Nothing that can be an operand.
    Other,
}

/// The label that a bare operand names: an identifier that is no register.
pub open spec fn bare_label(token: TokenView) -> Option<Seq<char>> {
    match token {
        TokenView::Ident(name) => if Register::spec_from(name) is None {
            Some(name)
        } else {
            None
        },
        _ => None,
    }
}

/// The shape of an operand without brackets. A label counts as the number 0,
/// which holds its place until the label's offset is known.
pub open spec fn bare_shape(token: TokenView) -> Shape {
    match token {
        TokenView::Number(value) => Shape::Imm(value),
        TokenView::Ident(name) => match Register::spec_from(name) {
            Some(reg) => Shape::Reg(reg),
            None => Shape::Imm(0),
        },
        _ => Shape::Other,
    }
}

/// The shape of an operand. Square brackets round a single number, register
/// or label make a pointer of it.
pub open spec fn spec_shape(token: TokenView) -> Shape {
    match token {
        TokenView::Group(delim, inner) => if delim == GroupDelim::Brack && inner.len() == 1 {
            match bare_shape(inner[0]) {
                Shape::Imm(value) => Shape::ImmPtr(value),
                Shape::Reg(reg) => Shape::RegPtr(reg),
                _ => Shape::Other,
            }
        } else {
            Shape::Other
        },
        other => bare_shape(other),
    }
}

/// The label that an operand names, in brackets or not.
pub open spec fn spec_label(token: TokenView) -> Option<Seq<char>> {
    match token {
        TokenView::Group(delim, inner) => if delim == GroupDelim::Brack && inner.len() == 1 {
            bare_label(inner[0])
        } else {
            None
        },
        other => bare_label(other),
    }
}

/// The immediate of the narrowest width for `value`. A value of more than 16
/// bits fits no width.
pub open spec fn smallest_imm(value: u64) -> Result<Immediate, ErrorView> {
    if value > 0xFFFF {
        Err(ErrorView::NumberOOB(value, Width::Word))
    } else {
        Ok(Immediate::spec_new(Width::spec_smallest_that_fits(value), value))
    }
}

/// The immediate of the given width for `value`, which has to fit.
pub open spec fn sized_imm(width: Width, value: u64) -> Result<Immediate, ErrorView> {
    if width.spec_fits(value) {
        Ok(Immediate::spec_new(width, value))
    } else {
        Err(ErrorView::NumberOOB(value, width))
    }
}

/// The candidate instruction where it is valid, else the failure.
pub open spec fn checked(instr: Instruction) -> Result<Instruction, ErrorView> {
    if instr.spec_is_valid() {
        Ok(instr)
    } else {
        Err(ErrorView::InvalidOperands(instr))
    }
}

/// The failure for a token that cannot stand as operand.
pub open spec fn unexpected(ctx: Seq<char>, token: TokenView) -> Result<Instruction, ErrorView> {
    Err(ErrorView::UnexpectedToken(ctx, token_debug_text(token)))
}

/// The move of the number `left` to the operand `right`. The number takes the
/// width of the register it goes to, else the narrowest width that holds it.
pub open spec fn lower_i2x(left: u64, right: TokenView) -> Result<Instruction, ErrorView> {
    match spec_shape(right) {
        Shape::ImmPtr(addr) => match smallest_imm(left) {
            Err(e) => Err(e),
            Ok(value) => match sized_imm(Width::Word, addr) {
                Err(e) => Err(e),
                Ok(dest) => checked(Instruction::MovI2IP(value, dest)),
            },
        },
        Shape::Reg(dest) => match sized_imm(dest.spec_width(), left) {
            Err(e) => Err(e),
            Ok(value) => checked(Instruction::MovI2R(value, dest)),
        },
        Shape::RegPtr(dest) => match smallest_imm(left) {
            Err(e) => Err(e),
            Ok(value) => checked(Instruction::MovI2RP(value, dest)),
        },
        _ => unexpected("movi2x"@, right),
    }
}

/// The move of the datum at address `left` to the operand `right`.
pub open spec fn lower_ip2x(left: u64, right: TokenView) -> Result<Instruction, ErrorView> {
    match sized_imm(Width::Word, left) {
        Err(e) => match spec_shape(right) {
            Shape::ImmPtr(_) | Shape::Reg(_) | Shape::RegPtr(_) => Err(e),
            _ => unexpected("movip2x"@, right),
        },
        Ok(src) => match spec_shape(right) {
            Shape::ImmPtr(addr) => match sized_imm(Width::Word, addr) {
                Err(e) => Err(e),
                Ok(dest) => checked(Instruction::MovIP2IP(src, dest)),
            },
            Shape::Reg(dest) => checked(Instruction::MovIP2R(src, dest)),
            Shape::RegPtr(dest) => checked(Instruction::MovIP2RP(src, dest)),
            _ => unexpected("movip2x"@, right),
        },
    }
}

/// The move of the register `left` to the operand `right`.
pub open spec fn lower_r2x(left: Register, right: TokenView) -> Result<Instruction, ErrorView> {
    match spec_shape(right) {
        Shape::ImmPtr(addr) => match sized_imm(Width::Word, addr) {
            Err(e) => Err(e),
            Ok(dest) => checked(Instruction::MovR2IP(left, dest)),
        },
        Shape::Reg(dest) => checked(Instruction::MovR2R(left, dest)),
        Shape::RegPtr(dest) => checked(Instruction::MovR2RP(left, dest)),
        _ => unexpected("movr2x"@, right),
    }
}

/// The move of the datum that the register `left` points to, to the operand
/// `right`.
pub open spec fn lower_rp2x(left: Register, right: TokenView) -> Result<Instruction, ErrorView> {
    match spec_shape(right) {
        Shape::ImmPtr(addr) => match sized_imm(Width::Word, addr) {
            Err(e) => Err(e),
            Ok(dest) => checked(Instruction::MovRP2IP(left, dest)),
        },
        Shape::Reg(dest) => checked(Instruction::MovRP2R(left, dest)),
        Shape::RegPtr(dest) => checked(Instruction::MovRP2RP(left, dest)),
        _ => unexpected("movrp2x"@, right),
    }
}

/// The instruction for `mov src, dest`: the shapes of the two operands choose
/// it. A destination cannot be a bare number.
pub open spec fn lower_mov(src: TokenView, dest: TokenView) -> Result<Instruction, ErrorView> {
    match spec_shape(src) {
        Shape::Imm(value) => lower_i2x(value, dest),
        Shape::ImmPtr(addr) => lower_ip2x(addr, dest),
        Shape::Reg(reg) => lower_r2x(reg, dest),
        Shape::RegPtr(reg) => lower_rp2x(reg, dest),
        Shape::Other => unexpected("mov"@, src),
    }
}

/// The uses of labels in `mov src, dest`, where the move is instruction
/// number `index`: the source's label goes to the first immediate, the
/// destination's to the second.
pub open spec fn mov_refs(src: TokenView, dest: TokenView, index: usize) -> Seq<LabelRef> {
    let first = match spec_label(src) {
        Some(name) => seq![(name, index, ParamIdx::FirstImm)],
        None => Seq::empty(),
    };
    let second = match spec_label(dest) {
        Some(name) => seq![(name, index, ParamIdx::SecondImm)],
        None => Seq::empty(),
    };
    first + second
}

/// The instructions that an expression stands for. A label stands for none.
pub open spec fn lower(expr: ExprView) -> Result<Seq<Instruction>, ErrorView> {
    match expr {
        ExprView::Label(_) => Ok(Seq::empty()),
        ExprView::Nop => Ok(seq![Instruction::Nop]),
        ExprView::Mov(src, dest) => match lower_mov(src, dest) {
            Err(e) => Err(e),
            Ok(instr) => Ok(seq![instr]),
        },
    }
}

/// The uses of labels in an expression that becomes instruction `index`.
pub open spec fn expr_refs(expr: ExprView, index: usize) -> Seq<LabelRef> {
    match expr {
        ExprView::Mov(src, dest) => mov_refs(src, dest, index),
        _ => Seq::empty(),
    }
}

/// The shape of an operand without brackets, and the label it names.
fn bare_operand(token: &Token) -> (r: (Shape, Option<String>))
    ensures
        r.0 == bare_shape(token@),
        match r.1 {
            Some(name) => bare_label(token@) == Some(name@),
            None => bare_label(token@) is None,
        },
        r.0 matches Shape::Reg(reg) ==> reg.wf(),
{
    match token {
        Token::Number(value) => (Shape::Imm(*value), None),
        Token::Ident(name) => match Register::from(name.as_str()) {
            Some(reg) => (Shape::Reg(reg), None),
            None => (Shape::Imm(0), Some(name.clone())),
        },
        _ => (Shape::Other, None),
    }
}

/// The shape of an operand, and the label it names.
fn operand(token: &Token) -> (r: (Shape, Option<String>))
    ensures
        r.0 == spec_shape(token@),
        match r.1 {
            Some(name) => spec_label(token@) == Some(name@),
            None => spec_label(token@) is None,
        },
        r.0 matches Shape::Reg(reg) ==> reg.wf(),
        r.0 matches Shape::RegPtr(reg) ==> reg.wf(),
{
    match token {
        Token::Group(delim, inner) => {
            proof {
                lemma_group_view(*delim, *inner);
            }
            let bracketed = match delim {
                GroupDelim::Brack => true,
                _ => false,
            };
            if bracketed && inner.len() == 1 {
                assert(tokens_view(inner@)[0] == inner@[0]@);
                let (shape, label) = bare_operand(&inner[0]);
                match shape {
                    Shape::Imm(value) => (Shape::ImmPtr(value), label),
                    Shape::Reg(reg) => (Shape::RegPtr(reg), label),
                    _ => (Shape::Other, None),
                }
            } else {
                (Shape::Other, None)
            }
        },
        _ => bare_operand(token),
    }
}

/// The immediate of the narrowest width for `value`.
fn imm_smallest(value: u64) -> (r: Result<Immediate, Error>)
    ensures
        match smallest_imm(value) {
            Ok(imm) => r == Ok::<Immediate, Error>(imm) && imm.wf(),
            Err(e) => r matches Err(err) && err@ == e,
        },
{
    broadcast use Immediate::lemma_parts;

    if !Width::Word.fits(value) {
        return Err(Error::NumberOOB(value, Width::Word));
    }
    Immediate::new(Width::smallest_that_fits(value), value)
}

/// The immediate of the given width for `value`.
fn imm_sized(width: Width, value: u64) -> (r: Result<Immediate, Error>)
    ensures
        match sized_imm(width, value) {
            Ok(imm) => r == Ok::<Immediate, Error>(imm) && imm.wf(),
            Err(e) => r matches Err(err) && err@ == e,
        },
{
    broadcast use Immediate::lemma_parts;

    Immediate::new(width, value)
}

/// The failure for a token that cannot stand as operand.
fn reject(ctx: &str, token: &Token) -> (e: Error)
    ensures
        e@ == ErrorView::UnexpectedToken(ctx@, token_debug_text(token@)),
{
    Error::UnexpectedToken(ctx.to_owned(), debug_text(token))
}

/// What a validating constructor returned, with the failure by its view.
fn built(made: Result<Instruction, Error>, candidate: Ghost<Instruction>) -> (r: Result<
    Instruction,
    Error,
>)
    requires
        made == candidate@.spec_check_valid(),
    ensures
        match checked(candidate@) {
            Ok(instr) => r == Ok::<Instruction, Error>(instr),
            Err(e) => r matches Err(err) && err@ == e,
        },
{
    made
}

impl Expr {
    /// Lowers the expression to its instructions and notes the labels that
    /// it uses in `ctx`.
    ///
    /// A use is noted with the index that the instruction will have once the
    /// caller has appended it to `ctx.instructions`. Where the expression
    /// cannot be lowered, `ctx` stays as it was.
    pub fn to_instructions(&self, ctx: &mut CompileContext) -> (r: Result<Vec<Instruction>, Error>)
        ensures
            match lower(self@) {
                Err(e) => r matches Err(err) && err@ == e && final(ctx)@ == old(ctx)@,
                Ok(instrs) => r matches Ok(made) && made@ == instrs && final(ctx)@ == (ContextView {
                    label_refs: old(ctx)@.label_refs + expr_refs(
                        self@,
                        old(ctx)@.instructions.len() as usize,
                    ),
                    ..old(ctx)@
                }),
            },
            r matches Ok(made) ==> forall|i: int|
                0 <= i < made@.len() ==> (#[trigger] made@[i]).wf(),
    {
        match self {
            Expr::Label(_) => {
                assert(ctx@.label_refs + Seq::<LabelRef>::empty() =~= ctx@.label_refs);
                Ok(Vec::new())
            },
            Expr::Nop => {
                assert(ctx@.label_refs + Seq::<LabelRef>::empty() =~= ctx@.label_refs);
                let nop = Instruction::nop()?;
                Ok(vec![nop])
            },
            Expr::Mov(src, dest) => Self::mov(src, dest, ctx),
        }
    }

    /// Lowers `mov left, right`.
    fn mov(left: &Token, right: &Token, ctx: &mut CompileContext) -> (r: Result<
        Vec<Instruction>,
        Error,
    >)
        ensures
            match lower_mov(left@, right@) {
                Err(e) => r matches Err(err) && err@ == e && final(ctx)@ == old(ctx)@,
                Ok(instr) => r matches Ok(made) && made@ == seq![instr] && instr.wf()
                    && final(ctx)@ == (ContextView {
                    label_refs: old(ctx)@.label_refs + mov_refs(
                        left@,
                        right@,
                        old(ctx)@.instructions.len() as usize,
                    ),
                    ..old(ctx)@
                }),
            },
    {
        let (shape, first) = operand(left);
        let (_, second) = operand(right);
        let instr = match shape {
            Shape::Imm(value) => Self::movi2x(value, right)?,
            Shape::ImmPtr(addr) => Self::movip2x(addr, right)?,
            Shape::Reg(reg) => Self::movr2x(reg, right)?,
            Shape::RegPtr(reg) => Self::movrp2x(reg, right)?,
            Shape::Other => {
                return Err(reject("mov", left));
            },
        };
        let index: usize = ctx.instructions.len();
        let ghost before = ctx@.label_refs;
        match first {
            Some(name) => {
                ctx.label_refs.push((name, index, ParamIdx::FirstImm));
                assert(ctx@.label_refs =~= before + seq![(name@, index, ParamIdx::FirstImm)]);
            },
            None => {
                assert(ctx@.label_refs =~= before + Seq::<LabelRef>::empty());
            },
        }
        let ghost middle = ctx@.label_refs;
        match second {
            Some(name) => {
                ctx.label_refs.push((name, index, ParamIdx::SecondImm));
                assert(ctx@.label_refs =~= middle + seq![(name@, index, ParamIdx::SecondImm)]);
            },
            None => {
                assert(ctx@.label_refs =~= middle + Seq::<LabelRef>::empty());
            },
        }
        assert(ctx@.label_refs =~= before + mov_refs(left@, right@, index));
        Ok(vec![instr])
    }

    /// Lowers the move of a number.
    fn movi2x(left: u64, right: &Token) -> (r: Result<Instruction, Error>)
        ensures
            match lower_i2x(left, right@) {
                Err(e) => r matches Err(err) && err@ == e,
                Ok(instr) => r == Ok::<Instruction, Error>(instr) && instr.wf(),
            },
    {
        let (shape, _) = operand(right);
        match shape {
            Shape::ImmPtr(addr) => {
                let value = imm_smallest(left)?;
                let dest = imm_sized(Width::Word, addr)?;
                built(Instruction::movi2ip(value, dest), Ghost(Instruction::MovI2IP(value, dest)))
            },
            Shape::Reg(dest) => {
                let value = imm_sized(dest.width(), left)?;
                built(Instruction::movi2r(value, dest), Ghost(Instruction::MovI2R(value, dest)))
            },
            Shape::RegPtr(dest) => {
                let value = imm_smallest(left)?;
                built(Instruction::movi2rp(value, dest), Ghost(Instruction::MovI2RP(value, dest)))
            },
            _ => Err(reject("movi2x", right)),
        }
    }

    /// Lowers the move of the datum at an address.
    fn movip2x(left: u64, right: &Token) -> (r: Result<Instruction, Error>)
        ensures
            match lower_ip2x(left, right@) {
                Err(e) => r matches Err(err) && err@ == e,
                Ok(instr) => r == Ok::<Instruction, Error>(instr) && instr.wf(),
            },
    {
        let (shape, _) = operand(right);
        match shape {
            Shape::ImmPtr(addr) => {
                let src = imm_sized(Width::Word, left)?;
                let dest = imm_sized(Width::Word, addr)?;
                built(Instruction::movip2ip(src, dest), Ghost(Instruction::MovIP2IP(src, dest)))
            },
            Shape::Reg(dest) => {
                let src = imm_sized(Width::Word, left)?;
                built(Instruction::movip2r(src, dest), Ghost(Instruction::MovIP2R(src, dest)))
            },
            Shape::RegPtr(dest) => {
                let src = imm_sized(Width::Word, left)?;
                built(Instruction::movip2rp(src, dest), Ghost(Instruction::MovIP2RP(src, dest)))
            },
            _ => Err(reject("movip2x", right)),
        }
    }

    /// Lowers the move of a register.
    fn movr2x(left: Register, right: &Token) -> (r: Result<Instruction, Error>)
        requires
            left.wf(),
        ensures
            match lower_r2x(left, right@) {
                Err(e) => r matches Err(err) && err@ == e,
                Ok(instr) => r == Ok::<Instruction, Error>(instr) && instr.wf(),
            },
    {
        let (shape, _) = operand(right);
        match shape {
            Shape::ImmPtr(addr) => {
                let dest = imm_sized(Width::Word, addr)?;
                built(Instruction::movr2ip(left, dest), Ghost(Instruction::MovR2IP(left, dest)))
            },
            Shape::Reg(dest) => built(
                Instruction::movr2r(left, dest),
                Ghost(Instruction::MovR2R(left, dest)),
            ),
            Shape::RegPtr(dest) => built(
                Instruction::movr2rp(left, dest),
                Ghost(Instruction::MovR2RP(left, dest)),
            ),
            _ => Err(reject("movr2x", right)),
        }
    }

    /// Lowers the move of the datum that a register points to.
    fn movrp2x(left: Register, right: &Token) -> (r: Result<Instruction, Error>)
        requires
            left.wf(),
        ensures
            match lower_rp2x(left, right@) {
                Err(e) => r matches Err(err) && err@ == e,
                Ok(instr) => r == Ok::<Instruction, Error>(instr) && instr.wf(),
            },
    {
        let (shape, _) = operand(right);
        match shape {
            Shape::ImmPtr(addr) => {
                let dest = imm_sized(Width::Word, addr)?;
                built(Instruction::movrp2ip(left, dest), Ghost(Instruction::MovRP2IP(left, dest)))
            },
            Shape::Reg(dest) => built(
                Instruction::movrp2r(left, dest),
                Ghost(Instruction::MovRP2R(left, dest)),
            ),
            Shape::RegPtr(dest) => built(
                Instruction::movrp2rp(left, dest),
                Ghost(Instruction::MovRP2RP(left, dest)),
            ),
            _ => Err(reject("movrp2x", right)),
        }
    }
}

/// A move that is lowered is a valid instruction of well-formed operands, and
/// it has the immediate of each label that the move uses.
pub proof fn lemma_lower_mov(src: TokenView, dest: TokenView)
    ensures
        lower_mov(src, dest) matches Ok(instr) ==> {
            &&& instr.wf()
            &&& instr.spec_is_valid()
            &&& spec_label(src) is Some ==> instr.has_first_imm()
            &&& spec_label(dest) is Some ==> instr.has_second_imm()
        },
{
    broadcast use Immediate::lemma_parts;

    lemma_shape_wf(src);
    lemma_shape_wf(dest);
}

/// The register of an operand is well formed, and a label has the shape of a
/// number.
pub proof fn lemma_shape_wf(token: TokenView)
    ensures
        spec_shape(token) matches Shape::Reg(reg) ==> reg.wf(),
        spec_shape(token) matches Shape::RegPtr(reg) ==> reg.wf(),
        spec_label(token) is Some ==> (spec_shape(token) is Imm || spec_shape(token) is ImmPtr),
{
}

} // verus!

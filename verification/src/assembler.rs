//! The assembler: from source text to instructions and to the bytes of a ROM.
//!
//! Assembly has two phases. The first walks the expressions of the text,
//! emits the instructions and notes where each label is defined and where it
//! is used. The second writes, at each use, the byte offset of the
//! instruction that the label stands before.

use vstd::prelude::*;
use vstd::hash_map::StringHashMap;
use crate::error::{Error, ErrorView};
use crate::expr::{expr_refs, exprs_view, lower, Expr, ExprView};
use crate::instruction::{Instruction, ParamIdx};
use crate::value::{Immediate, Value, Width};
use crate::parser::{parse, spec_parse};

verus! {

/// The working state of an assembly.
pub struct CompileContext {
    /// For each label, the number of instructions emitted before it.
    pub label_defs: StringHashMap<usize>,
    /// The uses of labels, in the order met: the label, the index of the
    /// instruction that uses it, and the immediate that is to hold its offset.
    pub label_refs: Vec<(String, usize, ParamIdx)>,
    /// The instructions emitted so far.
    pub instructions: Vec<Instruction>,
}

/// One use of a label, as a mathematical value.
pub type LabelRef = (Seq<char>, usize, ParamIdx);

/// The working state of an assembly as a mathematical value.
pub struct ContextView {
    pub label_defs: Map<Seq<char>, usize>,
    pub label_refs: Seq<LabelRef>,
    pub instructions: Seq<Instruction>,
}

/// The views of a sequence of label uses.
pub open spec fn refs_view(refs: Seq<(String, usize, ParamIdx)>) -> Seq<LabelRef> {
    Seq::new(refs.len(), |i: int| (refs[i].0@, refs[i].1, refs[i].2))
}

impl View for CompileContext {
    type V = ContextView;

    open spec fn view(&self) -> ContextView {
        ContextView {
            label_defs: self.label_defs@,
            label_refs: refs_view(self.label_refs@),
            instructions: self.instructions@,
        }
    }
}

impl ContextView {
    /// The state before anything is emitted.
    pub open spec fn empty() -> ContextView {
        ContextView {
            label_defs: Map::empty(),
            label_refs: Seq::empty(),
            instructions: Seq::empty(),
        }
    }
}

impl Default for CompileContext {
    fn default() -> (ctx: Self)
        ensures
            ctx@ == ContextView::empty(),
    {
        let ctx = CompileContext {
            label_defs: StringHashMap::new(),
            label_refs: Vec::new(),
            instructions: Vec::new(),
        };
        assert(ctx@.label_refs =~= Seq::empty());
        ctx
    }
}

/// The number of bytes that the first `k` instructions take when encoded.
pub open spec fn prefix_len(instrs: Seq<Instruction>, k: int) -> nat
    decreases k,
{
    if k <= 0 {
        0
    } else {
        prefix_len(instrs, k - 1) + instrs[k - 1].spec_compile().len()
    }
}

/// The byte offset of instruction number `k` in the ROM: the bytes of the
/// instructions before it, counted in 16 bits. A ROM longer than that wraps.
pub open spec fn offset_at(instrs: Seq<Instruction>, k: int) -> u16 {
    (prefix_len(instrs, k) % 0x1_0000) as u16
}

/// The encodings of the instructions, one after the other.
pub open spec fn encode_all(instrs: Seq<Instruction>) -> Seq<u8>
    decreases instrs.len(),
{
    if instrs.len() == 0 {
        Seq::empty()
    } else {
        encode_all(instrs.drop_last()) + instrs.last().spec_compile()
    }
}

impl ContextView {
    /// What the emit phase relies on and keeps: every instruction is valid
    /// and well formed, every use points at an instruction that has the
    /// immediate it names, and every label stands before an instruction or
    /// at the end.
    pub open spec fn wf(self) -> bool {
        &&& forall|i: int|
            0 <= i < self.instructions.len() ==> (#[trigger] self.instructions[i]).wf()
                && self.instructions[i].spec_is_valid()
        &&& forall|k: int|
            0 <= k < self.label_refs.len() ==> (#[trigger] self.label_refs[k]).1
                < self.instructions.len() && self.instructions[self.label_refs[k].1 as int].has_imm(
                self.label_refs[k].2,
            )
        &&& forall|name: Seq<char>| #[trigger]
            self.label_defs.contains_key(name) ==> self.label_defs[name]
                <= self.instructions.len()
        &&& self.distinct_uses()
    }

    /// No two uses name the same immediate: uses of one instruction are the
    /// use of its source, which is an immediate, and after it the use of its
    /// destination.
    pub open spec fn distinct_uses(self) -> bool {
        forall|j: int, k: int|
            0 <= j < k < self.label_refs.len() && (#[trigger] self.label_refs[j]).1 == (
            #[trigger] self.label_refs[k]).1 ==> {
                &&& self.label_refs[j].2 == ParamIdx::FirstImm
                &&& self.label_refs[k].2 == ParamIdx::SecondImm
                &&& self.instructions[self.label_refs[j].1 as int].src_is_imm()
            }
    }

    /// The immediate that use number `k` leaves in its slot: of the width
    /// that the slot had, with the offset of the label cut to that width.
    pub open spec fn expected(self, k: int) -> Immediate {
        Instruction::patched(
            self.instructions[self.label_refs[k].1 as int].imm_at(self.label_refs[k].2),
            self.target(k) as u64,
        )
    }

    /// Whether `instrs` can be the instructions of this state with some of
    /// their immediates patched.
    pub open spec fn tracks(self, instrs: Seq<Instruction>) -> bool {
        &&& instrs.len() == self.instructions.len()
        &&& forall|i: int|
            0 <= i < instrs.len() ==> (#[trigger] instrs[i]).wf() && instrs[i].same_shape(
                self.instructions[i],
            )
    }

    /// The state after one expression is emitted. A label is bound to the
    /// number of instructions emitted so far; if it was bound before, the new
    /// binding replaces the old one.
    pub open spec fn emit_one(self, expr: ExprView) -> Result<ContextView, ErrorView> {
        match expr {
            ExprView::Label(name) => Ok(
                ContextView {
                    label_defs: self.label_defs.insert(name, self.instructions.len() as usize),
                    ..self
                },
            ),
            other => match lower(other) {
                Err(e) => Err(e),
                Ok(instrs) => Ok(
                    ContextView {
                        label_refs: self.label_refs + expr_refs(
                            other,
                            self.instructions.len() as usize,
                        ),
                        instructions: self.instructions + instrs,
                        ..self
                    },
                ),
            },
        }
    }

    /// The state after the expressions are emitted in order.
    pub open spec fn emit(self, exprs: Seq<ExprView>) -> Result<ContextView, ErrorView>
        decreases exprs.len(),
    {
        if exprs.len() == 0 {
            Ok(self)
        } else {
            match self.emit_one(exprs[0]) {
                Err(e) => Err(e),
                Ok(next) => next.emit(exprs.skip(1)),
            }
        }
    }

    /// The offset that use number `k` asks for.
    pub open spec fn target(self, k: int) -> u16 {
        offset_at(self.instructions, self.label_defs[self.label_refs[k].0] as int)
    }

    /// The instructions after the uses from number `k` on are resolved, where
    /// `instrs` are the instructions with the uses before `k` resolved.
    ///
    /// A use of a label that is bound nowhere fails the assembly. Otherwise
    /// the label's offset is written into the immediate that the use names.
    pub open spec fn resolve_from(self, instrs: Seq<Instruction>, k: int) -> Result<
        Seq<Instruction>,
        ErrorView,
    >
        decreases self.label_refs.len() - k,
    {
        if k < 0 || k >= self.label_refs.len() {
            Ok(instrs)
        } else {
            let (name, index, slot) = self.label_refs[k];
            if !self.label_defs.contains_key(name) {
                Err(ErrorView::LabelNotDefined(name))
            } else {
                let patched = instrs[index as int].spec_replace_imm(slot, self.target(k) as u64);
                if patched.spec_is_valid() {
                    self.resolve_from(instrs.update(index as int, patched), k + 1)
                } else {
                    Err(ErrorView::InvalidOperands(patched))
                }
            }
        }
    }

    /// The instructions with every use of a label resolved.
    pub open spec fn resolve(self) -> Result<Seq<Instruction>, ErrorView> {
        self.resolve_from(self.instructions, 0)
    }
}

/// The state of the assembly after the emit phase.
pub open spec fn spec_compile_to_context(code: Seq<char>) -> Result<ContextView, ErrorView> {
    match spec_parse(code) {
        Err(e) => Err(e),
        Ok(exprs) => ContextView::empty().emit(exprs),
    }
}

/// The instructions that a source text assembles to.
pub open spec fn spec_compile_to_instructions(code: Seq<char>) -> Result<
    Seq<Instruction>,
    ErrorView,
> {
    match spec_compile_to_context(code) {
        Err(e) => Err(e),
        Ok(ctx) => ctx.resolve(),
    }
}

/// The ROM that a source text assembles to: the encodings of its
/// instructions, one after the other.
pub open spec fn spec_compile(code: Seq<char>) -> Result<Seq<u8>, ErrorView> {
    match spec_compile_to_instructions(code) {
        Err(e) => Err(e),
        Ok(instrs) => Ok(encode_all(instrs)),
    }
}

/// Emitting an expression keeps the state well formed.
pub proof fn lemma_emit_one_wf(ctx: ContextView, expr: ExprView)
    requires
        ctx.wf(),
        ctx.instructions.len() < usize::MAX,
    ensures
        ctx.emit_one(expr) matches Ok(next) ==> next.wf(),
{
    broadcast use crate::value::Immediate::lemma_parts;

    match ctx.emit_one(expr) {
        Ok(next) => {
            match expr {
                ExprView::Label(name) => {},
                ExprView::Nop => {
                    assert(expr_refs(expr, ctx.instructions.len() as usize) =~= Seq::empty());
                    assert(next.label_refs =~= ctx.label_refs);
                },
                ExprView::Mov(src, dest) => {
                    crate::expr::lemma_lower_mov(src, dest);
                    let refs = expr_refs(expr, ctx.instructions.len() as usize);
                    assert forall|j: int, k: int|
                        0 <= j < k < next.label_refs.len() && (#[trigger] next.label_refs[j]).1 == (
                        #[trigger] next.label_refs[k]).1 implies next.label_refs[j].2
                        == ParamIdx::FirstImm && next.label_refs[k].2 == ParamIdx::SecondImm
                        && next.instructions[next.label_refs[j].1 as int].src_is_imm() by {
                        if k < ctx.label_refs.len() {
                            assert(next.label_refs[j] == ctx.label_refs[j]);
                            assert(next.label_refs[k] == ctx.label_refs[k]);
                        } else if j < ctx.label_refs.len() {
                            assert(next.label_refs[j] == ctx.label_refs[j]);
                            assert(next.label_refs[k] == refs[k - ctx.label_refs.len()]);
                        } else {
                            assert(next.label_refs[j] == refs[j - ctx.label_refs.len()]);
                            assert(next.label_refs[k] == refs[k - ctx.label_refs.len()]);
                            crate::expr::lemma_shape_wf(src);
                        }
                    }
                    assert forall|k: int| 0 <= k < next.label_refs.len() implies (
                    #[trigger] next.label_refs[k]).1 < next.instructions.len()
                        && next.instructions[next.label_refs[k].1 as int].has_imm(
                        next.label_refs[k].2,
                    ) by {
                        if k < ctx.label_refs.len() {
                            assert(next.label_refs[k] == ctx.label_refs[k]);
                        } else {
                            assert(next.label_refs[k] == refs[k - ctx.label_refs.len()]);
                        }
                    }
                },
            }
        },
        Err(_) => {},
    }
}

/// The emit phase on the expressions of a text: walks them in order, binds
/// the labels and lowers the rest.
pub fn emit_exprs(exprs: Vec<Expr>) -> (r: Result<CompileContext, Error>)
    ensures
        match ContextView::empty().emit(exprs_view(exprs@)) {
            Err(e) => r matches Err(err) && err@ == e,
            Ok(state) => r matches Ok(ctx) && ctx@ == state && ctx@.wf(),
        },
{
    let mut ctx = CompileContext::default();
    let ghost all = exprs_view(exprs@);
    assert(all.skip(0) =~= all);
    let mut i: usize = 0;
    while i < exprs.len()
        invariant
            i <= exprs.len(),
            all == exprs_view(exprs@),
            ctx@.wf(),
            ctx@.instructions.len() <= i,
            ContextView::empty().emit(all) == ctx@.emit(all.skip(i as int)),
        decreases exprs.len() - i,
    {
        let ghost before = ctx@;
        let ghost rest = all.skip(i as int);
        assert(rest[0] == exprs@[i as int]@);
        assert(rest.skip(1) =~= all.skip(i + 1));
        proof {
            lemma_emit_one_wf(before, rest[0]);
        }
        match &exprs[i] {
            Expr::Label(label) => {
                ctx.label_defs.insert(label.clone(), ctx.instructions.len());
            },
            expr => {
                let mut instructions = match expr.to_instructions(&mut ctx) {
                    Ok(instructions) => instructions,
                    Err(e) => {
                        return Err(e);
                    },
                };
                ctx.instructions.append(&mut instructions);
            },
        }
        assert(ctx@.label_refs =~= before.emit_one(rest[0])->Ok_0.label_refs);
        assert(ctx@.instructions =~= before.emit_one(rest[0])->Ok_0.instructions);
        assert(ctx@.label_defs =~= before.emit_one(rest[0])->Ok_0.label_defs);
        i += 1;
    }
    Ok(ctx)
}

/// The emit phase of the assembly of a source text.
pub fn compile_to_context(code: &str) -> (r: Result<CompileContext, Error>)
    ensures
        match spec_compile_to_context(code@) {
            Err(e) => r matches Err(err) && err@ == e,
            Ok(state) => r matches Ok(ctx) && ctx@ == state && ctx@.wf(),
        },
{
    let exprs = match parse(code) {
        Ok(exprs) => exprs,
        Err(e) => {
            return Err(e);
        },
    };
    emit_exprs(exprs)
}

/// The byte offset of every instruction, and at the end that of the place
/// after the last one.
fn calc_label_offsets(ctx: &CompileContext) -> (offsets: Vec<u16>)
    ensures
        offsets@.len() == ctx@.instructions.len() + 1,
        forall|k: int| 0 <= k < offsets@.len() ==> offsets@[k] == offset_at(ctx@.instructions, k),
{
    let mut offsets: Vec<u16> = Vec::new();
    let mut accum: u16 = 0;
    let mut i: usize = 0;
    while i < ctx.instructions.len()
        invariant
            i <= ctx.instructions.len(),
            offsets@.len() == i,
            accum == offset_at(ctx@.instructions, i as int),
            forall|k: int| 0 <= k < i ==> offsets@[k] == offset_at(ctx@.instructions, k),
        decreases ctx.instructions.len() - i,
    {
        offsets.push(accum);
        let len: u16 = ctx.instructions[i].len();
        proof {
            let before = prefix_len(ctx@.instructions, i as int) as int;
            let sum = accum + len;
            if sum > 0xFFFF {
                assert(sum % 0x1_0000 == sum - 0x1_0000);
            }
            vstd::arithmetic::div_mod::lemma_add_mod_noop(before, len as int, 0x1_0000);
            assert(len as int % 0x1_0000 == len);
        }
        accum = accum.wrapping_add(len);
        i += 1;
    }
    offsets.push(accum);
    offsets
}

/// The resolve phase: writes the offset of each label into the immediates
/// that use it.
pub fn resolve_labels(ctx: CompileContext) -> (r: Result<Vec<Instruction>, Error>)
    requires
        ctx@.wf(),
    ensures
        match ctx@.resolve() {
            Err(e) => r matches Err(err) && err@ == e,
            Ok(instrs) => r matches Ok(made) && made@ == instrs,
        },
{
    let offsets = calc_label_offsets(&ctx);
    let ghost state = ctx@;
    let CompileContext { label_defs, label_refs, instructions } = ctx;
    let mut instructions = instructions;
    let mut k: usize = 0;
    while k < label_refs.len()
        invariant
            k <= label_refs.len(),
            state == ctx@,
            state.wf(),
            state.label_defs == label_defs@,
            state.label_refs == refs_view(label_refs@),
            offsets@.len() == state.instructions.len() + 1,
            forall|j: int|
                0 <= j < offsets@.len() ==> offsets@[j] == offset_at(state.instructions, j),
            instructions@.len() == state.instructions.len(),
            forall|i: int|
                0 <= i < instructions@.len() ==> {
                    &&& (#[trigger] instructions@[i]).wf()
                    &&& instructions@[i].spec_is_valid()
                    &&& instructions@[i].has_first_imm() == state.instructions[i].has_first_imm()
                    &&& instructions@[i].has_second_imm() == state.instructions[i].has_second_imm()
                },
            state.resolve() == state.resolve_from(instructions@, k as int),
        decreases label_refs.len() - k,
    {
        let entry = &label_refs[k];
        assert(state.label_refs[k as int] == (entry.0@, entry.1, entry.2));
        let def: usize = match label_defs.get(entry.0.as_str()) {
            Some(def) => *def,
            None => {
                return Err(Error::LabelNotDefined(entry.0.clone()));
            },
        };
        let offset: u16 = offsets[def];
        let index: usize = entry.1;
        let instr: Instruction = instructions[index];
        proof {
            instr.lemma_replace_preserves(entry.2, offset as u64);
        }
        let patched = match instr.replace_imm(entry.2, offset as u64) {
            Ok(patched) => patched,
            Err(e) => {
                return Err(e);
            },
        };
        instructions.set(index, patched);
        k += 1;
    }
    Ok(instructions)
}

/// Assembles a source text into its instructions.
pub fn compile_to_instructions(code: &str) -> (r: Result<Vec<Instruction>, Error>)
    ensures
        match spec_compile_to_instructions(code@) {
            Err(e) => r matches Err(err) && err@ == e,
            Ok(instrs) => r matches Ok(made) && made@ == instrs,
        },
{
    let ctx = match compile_to_context(code) {
        Ok(ctx) => ctx,
        Err(e) => {
            return Err(e);
        },
    };
    resolve_labels(ctx)
}

/// Encodes the instructions one after the other.
pub fn encode_instructions(instructions: &Vec<Instruction>) -> (bytes: Vec<u8>)
    ensures
        bytes@ == encode_all(instructions@),
{
    let mut bytes: Vec<u8> = Vec::new();
    let mut i: usize = 0;
    while i < instructions.len()
        invariant
            i <= instructions.len(),
            bytes@ == encode_all(instructions@.take(i as int)),
        decreases instructions.len() - i,
    {
        let mut encoded = instructions[i].compile();
        assert(instructions@.take(i + 1).drop_last() =~= instructions@.take(i as int));
        bytes.append(&mut encoded);
        i += 1;
    }
    assert(instructions@.take(instructions@.len() as int) =~= instructions@);
    bytes
}

/// Assembles a source text into the bytes of a ROM.
pub fn compile(code: &str) -> (r: Result<Vec<u8>, Error>)
    ensures
        match spec_compile(code@) {
            Err(e) => r matches Err(err) && err@ == e,
            Ok(rom) => r matches Ok(bytes) && bytes@ == rom,
        },
        match spec_compile_to_instructions(code@) {
            Err(e) => r matches Err(err) && err@ == e,
            Ok(instrs) => r matches Ok(bytes) && bytes@ == encode_all(instrs),
        },
{
    match compile_to_instructions(code) {
        Ok(instructions) => Ok(encode_instructions(&instructions)),
        Err(e) => Err(e),
    }
}

impl ContextView {
    /// Instructions that differ in the values of their immediates alone take
    /// the same bytes, so labels stand at the same offsets before and after
    /// the resolve phase.
    pub proof fn lemma_offsets_stay(self, instrs: Seq<Instruction>, k: int)
        requires
            self.tracks(instrs),
            0 <= k <= instrs.len(),
        ensures
            prefix_len(instrs, k) == prefix_len(self.instructions, k),
            offset_at(instrs, k) == offset_at(self.instructions, k),
        decreases k,
    {
        if k > 0 {
            self.lemma_offsets_stay(instrs, k - 1);
            instrs[k - 1].lemma_same_shape(self.instructions[k - 1]);
        }
    }

    /// The resolve phase from use number `k` on, where the uses before `k`
    /// have left their immediates in `instrs`: if it succeeds, every use has
    /// left its immediate, and the result differs from the emitted
    /// instructions in the values of immediates alone.
    pub proof fn lemma_resolve_from(self, instrs: Seq<Instruction>, k: int)
        requires
            self.wf(),
            self.tracks(instrs),
            0 <= k <= self.label_refs.len(),
            forall|j: int|
                0 <= j < k ==> self.label_defs.contains_key((#[trigger] self.label_refs[j]).0)
                    && instrs[self.label_refs[j].1 as int].imm_at(self.label_refs[j].2)
                    == self.expected(j),
        ensures
            self.resolve_from(instrs, k) matches Ok(out) ==> {
                &&& self.tracks(out)
                &&& forall|j: int|
                    0 <= j < self.label_refs.len() ==> {
                        &&& self.label_defs.contains_key((#[trigger] self.label_refs[j]).0)
                        &&& out[self.label_refs[j].1 as int].imm_at(self.label_refs[j].2)
                            == self.expected(j)
                    }
            },
            self.resolve_from(instrs, k) matches Err(e) ==> exists|j: int|
                k <= j < self.label_refs.len() && !self.label_defs.contains_key(
                    (#[trigger] self.label_refs[j]).0,
                ) && e == ErrorView::LabelNotDefined(self.label_refs[j].0),
        decreases self.label_refs.len() - k,
    {
        if k < self.label_refs.len() {
            let (name, index, slot) = self.label_refs[k];
            if self.label_defs.contains_key(name) {
                let old = instrs[index as int];
                let emitted = self.instructions[index as int];
                let patched = old.spec_replace_imm(slot, self.target(k) as u64);
                old.lemma_same_shape(emitted);
                old.lemma_replace_imm(slot, self.target(k) as u64);
                old.lemma_replace_preserves(slot, self.target(k) as u64);
                patched.lemma_same_shape(old);
                Instruction::lemma_patched(old.imm_at(slot), self.target(k) as u64);
                Instruction::lemma_patched(emitted.imm_at(slot), self.target(k) as u64);
                let next = instrs.update(index as int, patched);
                assert(patched.imm_at(slot) == self.expected(k));
                assert forall|j: int| 0 <= j < k + 1 implies self.label_defs.contains_key(
                    (#[trigger] self.label_refs[j]).0,
                ) && next[self.label_refs[j].1 as int].imm_at(self.label_refs[j].2)
                    == self.expected(j) by {
                    if j < k && self.label_refs[j].1 == index {
                        assert(self.label_refs[j].2 == ParamIdx::FirstImm);
                        assert(slot == ParamIdx::SecondImm);
                        assert(emitted.src_is_imm());
                    }
                }
                self.lemma_resolve_from(next, k + 1);
            } else {
                assert(self.resolve_from(instrs, k) == Err::<Seq<Instruction>, ErrorView>(
                    ErrorView::LabelNotDefined(name),
                ));
            }
        }
    }

    /// Label patching: after a successful resolve phase, the immediate of
    /// every use holds the offset of its label, which is the number of bytes
    /// of the instructions before the place where the label is defined,
    /// counted in 16 bits. An immediate of a byte holds the low byte of it.
    pub proof fn lemma_label_patching(self, k: int)
        requires
            self.wf(),
            self.resolve() is Ok,
            0 <= k < self.label_refs.len(),
        ensures
            ({
                let out = self.resolve()->Ok_0;
                let (name, index, slot) = self.label_refs[k];
                let bound = self.label_defs[name] as int;
                let patched = out[index as int].imm_at(slot);
                &&& self.label_defs.contains_key(name)
                &&& out.len() == self.instructions.len()
                &&& patched.spec_width() == self.instructions[index as int].imm_at(
                    slot,
                ).spec_width()
                &&& patched.value() == patched.spec_width().truncate(
                    (prefix_len(out, bound) % 0x1_0000) as u64,
                )
                &&& patched.spec_width() == Width::Word ==> patched.value() == prefix_len(
                    out,
                    bound,
                ) % 0x1_0000
            }),
    {
        self.lemma_tracks_itself();
        self.lemma_resolve_from(self.instructions, 0);
        let out = self.resolve()->Ok_0;
        let (name, index, slot) = self.label_refs[k];
        self.lemma_offsets_stay(out, self.label_defs[name] as int);
        Instruction::lemma_patched(
            self.instructions[index as int].imm_at(slot),
            self.target(k) as u64,
        );
    }

    /// A label that is used and defined nowhere fails the resolve phase with
    /// `LabelNotDefined`, which names the first such label in order of use.
    pub proof fn lemma_undefined_label(self, k: int)
        requires
            self.wf(),
            0 <= k < self.label_refs.len(),
            !self.label_defs.contains_key(self.label_refs[k].0),
        ensures
            self.resolve() matches Err(ErrorView::LabelNotDefined(name))
                && !self.label_defs.contains_key(name),
    {
        self.lemma_tracks_itself();
        self.lemma_resolve_from(self.instructions, 0);
        if self.resolve() is Ok {
            assert(self.label_defs.contains_key(self.label_refs[k].0));
        }
    }

    /// The emitted instructions are themselves a stage of the resolve phase.
    pub proof fn lemma_tracks_itself(self)
        requires
            self.wf(),
        ensures
            self.tracks(self.instructions),
    {
    }

    /// The emit phase leaves a well-formed state, whatever it is given, as
    /// long as the instructions can be counted.
    pub proof fn lemma_emit_wf(self, exprs: Seq<ExprView>)
        requires
            self.wf(),
            self.instructions.len() + exprs.len() <= usize::MAX,
        ensures
            self.emit(exprs) matches Ok(state) ==> state.wf(),
        decreases exprs.len(),
    {
        if exprs.len() > 0 {
            lemma_emit_one_wf(self, exprs[0]);
            match self.emit_one(exprs[0]) {
                Ok(next) => {
                    next.lemma_emit_wf(exprs.skip(1));
                },
                Err(_) => {},
            }
        }
    }
}

/// The bytes before instruction number `k` depend on the instructions
/// before it alone.
pub proof fn lemma_prefix_len_take(instrs: Seq<Instruction>, n: int, k: int)
    requires
        0 <= k <= n <= instrs.len(),
    ensures
        prefix_len(instrs.take(n), k) == prefix_len(instrs, k),
    decreases k,
{
    if k > 0 {
        lemma_prefix_len_take(instrs, n, k - 1);
        assert(instrs.take(n)[k - 1] == instrs[k - 1]);
    }
}

/// The ROM is as long as its instructions together, and instruction number
/// `k` stands in it at the offset that the bytes before it make.
pub proof fn lemma_encoding_at(instrs: Seq<Instruction>, k: int)
    requires
        0 <= k < instrs.len(),
    ensures
        encode_all(instrs).len() == prefix_len(instrs, instrs.len() as int),
        prefix_len(instrs, k + 1) <= encode_all(instrs).len(),
        encode_all(instrs).subrange(
            prefix_len(instrs, k) as int,
            prefix_len(instrs, k + 1) as int,
        ) == instrs[k].spec_compile(),
    decreases instrs.len(),
{
    let n = instrs.len() as int;
    let front = instrs.drop_last();
    let last = instrs.last().spec_compile();
    assert(front =~= instrs.take(n - 1));
    lemma_prefix_len_take(instrs, n - 1, n - 1);
    if n > 1 {
        lemma_encoding_at(front, 0);
    }
    assert(encode_all(front).len() == prefix_len(instrs, n - 1));
    let rom = encode_all(instrs);
    assert(rom == encode_all(front) + last);
    if k == n - 1 {
        assert(rom.subrange(prefix_len(instrs, k) as int, prefix_len(instrs, k + 1) as int)
            =~= last);
    } else {
        lemma_encoding_at(front, k);
        lemma_prefix_len_take(instrs, n - 1, k);
        lemma_prefix_len_take(instrs, n - 1, k + 1);
        assert(front[k] == instrs[k]);
        assert(rom.subrange(prefix_len(instrs, k) as int, prefix_len(instrs, k + 1) as int)
            =~= encode_all(front).subrange(
            prefix_len(front, k) as int,
            prefix_len(front, k + 1) as int,
        ));
    }
}

/// The ROM decodes back to the program: what stands in the ROM from the
/// offset of a valid instruction on decodes to that instruction.
pub proof fn lemma_rom_decodes(instrs: Seq<Instruction>, k: int)
    requires
        0 <= k < instrs.len(),
        instrs[k].wf(),
        instrs[k].spec_is_valid(),
    ensures
        prefix_len(instrs, k) <= encode_all(instrs).len(),
        Instruction::spec_decompile(encode_all(instrs).skip(prefix_len(instrs, k) as int)) == Ok::<
            Instruction,
            Error,
        >(instrs[k]),
{
    lemma_encoding_at(instrs, k);
    let rom = encode_all(instrs);
    let from = prefix_len(instrs, k) as int;
    let to = prefix_len(instrs, k + 1) as int;
    let rest = rom.skip(to);
    assert(rom.skip(from) =~= rom.subrange(from, to) + rest);
    instrs[k].lemma_decompile_compile(rest);
}

/// The ROM of a source text is the encodings of the instructions that the
/// text assembles to, one after the other; the one fails where the other does.
pub proof fn lemma_compile_concatenates(code: Seq<char>)
    ensures
        spec_compile(code) == match spec_compile_to_instructions(code) {
            Err(e) => Err::<Seq<u8>, ErrorView>(e),
            Ok(instrs) => Ok(encode_all(instrs)),
        },
{
}

} // verus!

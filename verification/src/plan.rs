//! The forward pass as a straight-line program for a small register machine.
//!
//! The program is what a tensor backend executes, one operation per instruction. What it
//! computes is proved here: the register that carries the token stream ends up holding
//! exactly the term that the recipe prescribes for the model.

use vstd::prelude::*;
use crate::config::AIMv2Config;
use crate::term::{
    block_middle_term, block_term, blocks_term, feed_forward_term, model_term, preprocessor_term,
    trunk_term, LinearId, NormId, Term,
};

verus! {

/// Number of registers of the machine.
pub const SLOTS: usize = 5;

/// The register that holds the image at the start and the token stream from then on.
pub const STREAM: usize = 0;

/// The register that holds the input and the result of the sublayer at work.
pub const WORK: usize = 1;

/// Temporary register: queries, scores and attention weights in turn, or the gating branch.
pub const LEFT: usize = 2;

/// Temporary register: keys; the value branch of the feed-forward layer.
pub const RIGHT: usize = 3;

/// Temporary register: attention values.
pub const EXTRA: usize = 4;

/// An operation on one tensor.
#[derive(Clone, Copy, Debug, PartialEq, Eq)]
pub enum UnaryKind {
    Patches,
    Linear(LinearId),
    AddPositions,
    RmsNorm(NormId),
    SplitHeads,
    MergeHeads,
    Scale,
    Softmax,
    Silu,
}

/// An operation on two tensors.
#[derive(Clone, Copy, Debug, PartialEq, Eq)]
pub enum BinaryKind {
    Scores,
    Weighted,
    Mul,
    Add,
}

/// One instruction: read the source registers, write the destination register.
#[allow(inconsistent_fields)]
#[derive(Clone, Copy, Debug, PartialEq, Eq)]
pub enum Op {
    Unary { kind: UnaryKind, src: usize, dst: usize },
    Binary { kind: BinaryKind, lhs: usize, rhs: usize, dst: usize },
}

/// The term that a unary operation makes of `x`.
pub open spec fn unary_term(kind: UnaryKind, x: Term) -> Term {
    match kind {
        UnaryKind::Patches => Term::Patches(Box::new(x)),
        UnaryKind::Linear(l) => Term::Linear(l, Box::new(x)),
        UnaryKind::AddPositions => Term::AddPositions(Box::new(x)),
        UnaryKind::RmsNorm(n) => Term::RmsNorm(n, Box::new(x)),
        UnaryKind::SplitHeads => Term::SplitHeads(Box::new(x)),
        UnaryKind::MergeHeads => Term::MergeHeads(Box::new(x)),
        UnaryKind::Scale => Term::Scale(Box::new(x)),
        UnaryKind::Softmax => Term::Softmax(Box::new(x)),
        UnaryKind::Silu => Term::Silu(Box::new(x)),
    }
}

/// The term that a binary operation makes of `a` and `b`.
pub open spec fn binary_term(kind: BinaryKind, a: Term, b: Term) -> Term {
    match kind {
        BinaryKind::Scores => Term::Scores(Box::new(a), Box::new(b)),
        BinaryKind::Weighted => Term::Weighted(Box::new(a), Box::new(b)),
        BinaryKind::Mul => Term::Mul(Box::new(a), Box::new(b)),
        BinaryKind::Add => Term::Add(Box::new(a), Box::new(b)),
    }
}

/// Every register that the instruction names exists.
pub open spec fn op_in_range(op: Op) -> bool {
    match op {
        Op::Unary { kind, src, dst } => src < SLOTS && dst < SLOTS,
        Op::Binary { kind, lhs, rhs, dst } => lhs < SLOTS && rhs < SLOTS && dst < SLOTS,
    }
}

/// The registers after one instruction. An instruction that names a register that does not
/// exist changes nothing.
pub open spec fn step(op: Op, regs: Seq<Term>) -> Seq<Term> {
    if regs.len() == SLOTS && op_in_range(op) {
        match op {
            Op::Unary { kind, src, dst } => regs.update(dst as int, unary_term(kind, regs[src as int])),
            Op::Binary { kind, lhs, rhs, dst } => regs.update(
                dst as int,
                binary_term(kind, regs[lhs as int], regs[rhs as int]),
            ),
        }
    } else {
        regs
    }
}

/// The registers after the first `k` instructions of `ops`.
pub open spec fn run_prefix(ops: Seq<Op>, k: nat, regs: Seq<Term>) -> Seq<Term>
    decreases k,
{
    if k == 0 || k > ops.len() {
        regs
    } else {
        step(ops[k - 1], run_prefix(ops, (k - 1) as nat, regs))
    }
}

/// The registers after the whole program.
pub open spec fn run(ops: Seq<Op>, regs: Seq<Term>) -> Seq<Term> {
    run_prefix(ops, ops.len(), regs)
}

/// The registers at the start: every one holds the image.
pub open spec fn initial_registers() -> Seq<Term> {
    Seq::new(SLOTS as nat, |i: int| Term::Image)
}

/// A unary instruction.
pub open spec fn un(kind: UnaryKind, src: usize, dst: usize) -> Op {
    Op::Unary { kind, src, dst }
}

/// A binary instruction.
pub open spec fn bin(kind: BinaryKind, lhs: usize, rhs: usize, dst: usize) -> Op {
    Op::Binary { kind, lhs, rhs, dst }
}

/// Patch embedding, in place on the stream register.
pub open spec fn preprocessor_ops() -> Seq<Op> {
    seq![
        un(UnaryKind::Patches, STREAM, STREAM),
        un(UnaryKind::Linear(LinearId::PatchProjection), STREAM, STREAM),
        un(UnaryKind::AddPositions, STREAM, STREAM),
    ]
}

/// First half of a block: the stream is normalized into the work register, attended to,
/// and the result is added to the stream.
pub open spec fn attention_ops(block: u32) -> Seq<Op> {
    seq![
        un(UnaryKind::RmsNorm(NormId::First(block)), STREAM, WORK),
        un(UnaryKind::Linear(LinearId::Query(block)), WORK, LEFT),
        un(UnaryKind::SplitHeads, LEFT, LEFT),
        un(UnaryKind::Linear(LinearId::Key(block)), WORK, RIGHT),
        un(UnaryKind::SplitHeads, RIGHT, RIGHT),
        un(UnaryKind::Linear(LinearId::Value(block)), WORK, EXTRA),
        un(UnaryKind::SplitHeads, EXTRA, EXTRA),
        bin(BinaryKind::Scores, LEFT, RIGHT, LEFT),
        un(UnaryKind::Scale, LEFT, LEFT),
        un(UnaryKind::Softmax, LEFT, LEFT),
        bin(BinaryKind::Weighted, LEFT, EXTRA, WORK),
        un(UnaryKind::MergeHeads, WORK, WORK),
        un(UnaryKind::Linear(LinearId::Output(block)), WORK, WORK),
        bin(BinaryKind::Add, STREAM, WORK, STREAM),
    ]
}

/// Second half of a block: the stream is normalized into the work register, both branches
/// of the feed-forward layer read it, and the result is added to the stream.
pub open spec fn feed_forward_ops(block: u32) -> Seq<Op> {
    seq![
        un(UnaryKind::RmsNorm(NormId::Second(block)), STREAM, WORK),
        un(UnaryKind::Linear(LinearId::Gate(block)), WORK, LEFT),
        un(UnaryKind::Silu, LEFT, LEFT),
        un(UnaryKind::Linear(LinearId::Up(block)), WORK, RIGHT),
        bin(BinaryKind::Mul, LEFT, RIGHT, WORK),
        un(UnaryKind::Linear(LinearId::Down(block)), WORK, WORK),
        bin(BinaryKind::Add, STREAM, WORK, STREAM),
    ]
}

/// One block.
pub open spec fn block_ops(block: u32) -> Seq<Op> {
    attention_ops(block) + feed_forward_ops(block)
}

/// The first `n` blocks, in index order.
pub open spec fn blocks_ops(n: nat) -> Seq<Op>
    decreases n,
{
    if n == 0 {
        Seq::empty()
    } else {
        blocks_ops((n - 1) as nat) + block_ops((n - 1) as u32)
    }
}

/// The closing norm, in place on the stream register.
pub open spec fn post_trunk_ops() -> Seq<Op> {
    seq![un(UnaryKind::RmsNorm(NormId::PostTrunk), STREAM, STREAM)]
}

/// The trunk of `n` blocks.
pub open spec fn trunk_ops(n: nat) -> Seq<Op> {
    blocks_ops(n) + post_trunk_ops()
}

/// The whole model with `n` blocks.
pub open spec fn model_ops(n: nat) -> Seq<Op> {
    preprocessor_ops() + trunk_ops(n)
}

/// A program never changes the number of registers.
pub proof fn lemma_run_keeps_registers(ops: Seq<Op>, k: nat, regs: Seq<Term>)
    ensures
        run_prefix(ops, k, regs).len() == regs.len(),
    decreases k,
{
    if k != 0 && k <= ops.len() {
        lemma_run_keeps_registers(ops, (k - 1) as nat, regs);
    }
}

/// The first instructions of a program do not depend on what follows them.
pub proof fn lemma_run_prefix_of_concat(a: Seq<Op>, b: Seq<Op>, k: nat, regs: Seq<Term>)
    requires
        k <= a.len(),
    ensures
        run_prefix(a + b, k, regs) == run_prefix(a, k, regs),
    decreases k,
{
    if k != 0 {
        lemma_run_prefix_of_concat(a, b, (k - 1) as nat, regs);
        assert((a + b)[k - 1] == a[k - 1]);
    }
}

/// Running two programs one after the other is running their concatenation.
pub proof fn lemma_run_concat(a: Seq<Op>, b: Seq<Op>, regs: Seq<Term>)
    ensures
        run(a + b, regs) == run(b, run(a, regs)),
{
    lemma_run_concat_prefix(a, b, b.len(), regs);
}

proof fn lemma_run_concat_prefix(a: Seq<Op>, b: Seq<Op>, k: nat, regs: Seq<Term>)
    requires
        k <= b.len(),
    ensures
        run_prefix(a + b, a.len() + k, regs) == run_prefix(b, k, run(a, regs)),
    decreases k,
{
    if k == 0 {
        lemma_run_prefix_of_concat(a, b, a.len(), regs);
    } else {
        lemma_run_concat_prefix(a, b, (k - 1) as nat, regs);
        assert((a + b)[a.len() + k - 1] == b[k - 1]);
    }
}

/// The preprocessor program leaves the embedded patches of the stream in the stream
/// register.
pub proof fn lemma_preprocessor_ops(regs: Seq<Term>)
    requires
        regs.len() == SLOTS,
    ensures
        run(preprocessor_ops(), regs).len() == SLOTS,
        run(preprocessor_ops(), regs)[STREAM as int] == preprocessor_term(regs[STREAM as int]),
{
    reveal_with_fuel(run_prefix, 4);
}

/// The first half of a block leaves the stream plus the attention of its normalized copy in
/// the stream register.
pub proof fn lemma_attention_ops(block: u32, regs: Seq<Term>)
    requires
        regs.len() == SLOTS,
    ensures
        run(attention_ops(block), regs).len() == SLOTS,
        run(attention_ops(block), regs)[STREAM as int] == block_middle_term(
            block,
            regs[STREAM as int],
        ),
{
    reveal_with_fuel(run_prefix, 15);
}

/// The second half of a block leaves the stream plus the feed-forward result of its
/// normalized copy in the stream register.
pub proof fn lemma_feed_forward_ops(block: u32, regs: Seq<Term>)
    requires
        regs.len() == SLOTS,
    ensures
        run(feed_forward_ops(block), regs).len() == SLOTS,
        run(feed_forward_ops(block), regs)[STREAM as int] == Term::Add(
            Box::new(regs[STREAM as int]),
            Box::new(
                feed_forward_term(
                    block,
                    Term::RmsNorm(NormId::Second(block), Box::new(regs[STREAM as int])),
                ),
            ),
        ),
{
    reveal_with_fuel(run_prefix, 8);
}

/// The program of a block computes the block: pre-normalization and a residual addition
/// around each sublayer.
pub proof fn lemma_block_ops(block: u32, regs: Seq<Term>)
    requires
        regs.len() == SLOTS,
    ensures
        run(block_ops(block), regs).len() == SLOTS,
        run(block_ops(block), regs)[STREAM as int] == block_term(block, regs[STREAM as int]),
{
    lemma_run_concat(attention_ops(block), feed_forward_ops(block), regs);
    lemma_attention_ops(block, regs);
    lemma_feed_forward_ops(block, run(attention_ops(block), regs));
}

/// The program of `n` blocks applies the blocks in index order.
pub proof fn lemma_blocks_ops(n: nat, regs: Seq<Term>)
    requires
        regs.len() == SLOTS,
    ensures
        run(blocks_ops(n), regs).len() == SLOTS,
        run(blocks_ops(n), regs)[STREAM as int] == blocks_term(n, regs[STREAM as int]),
    decreases n,
{
    if n > 0 {
        let before = blocks_ops((n - 1) as nat);
        lemma_blocks_ops((n - 1) as nat, regs);
        lemma_run_concat(before, block_ops((n - 1) as u32), regs);
        lemma_block_ops((n - 1) as u32, run(before, regs));
    }
}

/// The program of the trunk applies the blocks in index order and then the closing norm once.
pub proof fn lemma_trunk_ops(n: nat, regs: Seq<Term>)
    requires
        regs.len() == SLOTS,
    ensures
        run(trunk_ops(n), regs).len() == SLOTS,
        run(trunk_ops(n), regs)[STREAM as int] == trunk_term(n, regs[STREAM as int]),
{
    lemma_blocks_ops(n, regs);
    lemma_run_concat(blocks_ops(n), post_trunk_ops(), regs);
    reveal_with_fuel(run_prefix, 2);
}

/// The program of the model computes the model: started on the image, it leaves the trunk of
/// the embedded patches in the stream register.
pub proof fn lemma_model_ops(n: nat)
    ensures
        run(model_ops(n), initial_registers())[STREAM as int] == model_term(n, Term::Image),
{
    let start = initial_registers();
    lemma_run_concat(preprocessor_ops(), trunk_ops(n), start);
    lemma_preprocessor_ops(start);
    lemma_trunk_ops(n, run(preprocessor_ops(), start));
}

/// The program of a model without blocks is the preprocessor followed by the closing norm,
/// and computes the norm of the embedded patches.
pub proof fn lemma_empty_trunk_ops()
    ensures
        model_ops(0) == preprocessor_ops() + post_trunk_ops(),
        run(model_ops(0), initial_registers())[STREAM as int] == Term::RmsNorm(
            NormId::PostTrunk,
            Box::new(preprocessor_term(Term::Image)),
        ),
{
    assert(blocks_ops(0) + post_trunk_ops() =~= post_trunk_ops());
    lemma_model_ops(0);
}

/// A unary instruction.
fn unary(kind: UnaryKind, src: usize, dst: usize) -> (op: Op)
    ensures
        op == un(kind, src, dst),
{
    Op::Unary { kind, src, dst }
}

/// A binary instruction.
fn binary(kind: BinaryKind, lhs: usize, rhs: usize, dst: usize) -> (op: Op)
    ensures
        op == bin(kind, lhs, rhs, dst),
{
    Op::Binary { kind, lhs, rhs, dst }
}

/// Appends the patch embedding to a program.
fn append_preprocessor(ops: &mut Vec<Op>)
    ensures
        final(ops)@ == old(ops)@ + preprocessor_ops(),
{
    ops.push(unary(UnaryKind::Patches, STREAM, STREAM));
    ops.push(unary(UnaryKind::Linear(LinearId::PatchProjection), STREAM, STREAM));
    ops.push(unary(UnaryKind::AddPositions, STREAM, STREAM));
    proof {
        assert(ops@ =~= old(ops)@ + preprocessor_ops());
    }
}

/// Appends the first half of a block to a program.
fn append_attention(ops: &mut Vec<Op>, block: u32)
    ensures
        final(ops)@ == old(ops)@ + attention_ops(block),
{
    ops.push(unary(UnaryKind::RmsNorm(NormId::First(block)), STREAM, WORK));
    ops.push(unary(UnaryKind::Linear(LinearId::Query(block)), WORK, LEFT));
    ops.push(unary(UnaryKind::SplitHeads, LEFT, LEFT));
    ops.push(unary(UnaryKind::Linear(LinearId::Key(block)), WORK, RIGHT));
    ops.push(unary(UnaryKind::SplitHeads, RIGHT, RIGHT));
    ops.push(unary(UnaryKind::Linear(LinearId::Value(block)), WORK, EXTRA));
    ops.push(unary(UnaryKind::SplitHeads, EXTRA, EXTRA));
    ops.push(binary(BinaryKind::Scores, LEFT, RIGHT, LEFT));
    ops.push(unary(UnaryKind::Scale, LEFT, LEFT));
    ops.push(unary(UnaryKind::Softmax, LEFT, LEFT));
    ops.push(binary(BinaryKind::Weighted, LEFT, EXTRA, WORK));
    ops.push(unary(UnaryKind::MergeHeads, WORK, WORK));
    ops.push(unary(UnaryKind::Linear(LinearId::Output(block)), WORK, WORK));
    ops.push(binary(BinaryKind::Add, STREAM, WORK, STREAM));
    proof {
        assert(ops@ =~= old(ops)@ + attention_ops(block));
    }
}

/// Appends the second half of a block to a program.
fn append_feed_forward(ops: &mut Vec<Op>, block: u32)
    ensures
        final(ops)@ == old(ops)@ + feed_forward_ops(block),
{
    ops.push(unary(UnaryKind::RmsNorm(NormId::Second(block)), STREAM, WORK));
    ops.push(unary(UnaryKind::Linear(LinearId::Gate(block)), WORK, LEFT));
    ops.push(unary(UnaryKind::Silu, LEFT, LEFT));
    ops.push(unary(UnaryKind::Linear(LinearId::Up(block)), WORK, RIGHT));
    ops.push(binary(BinaryKind::Mul, LEFT, RIGHT, WORK));
    ops.push(unary(UnaryKind::Linear(LinearId::Down(block)), WORK, WORK));
    ops.push(binary(BinaryKind::Add, STREAM, WORK, STREAM));
    proof {
        assert(ops@ =~= old(ops)@ + feed_forward_ops(block));
    }
}

/// Appends a block to a program.
fn append_block(ops: &mut Vec<Op>, block: u32)
    ensures
        final(ops)@ == old(ops)@ + block_ops(block),
{
    append_attention(ops, block);
    append_feed_forward(ops, block);
    proof {
        assert(ops@ =~= old(ops)@ + block_ops(block));
    }
}

/// Appends the trunk of `layers` blocks to a program.
fn append_trunk(ops: &mut Vec<Op>, layers: u32)
    ensures
        final(ops)@ == old(ops)@ + trunk_ops(layers as nat),
{
    let mut block: u32 = 0;
    while block < layers
        invariant
            block <= layers,
            ops@ == old(ops)@ + blocks_ops(block as nat),
        decreases layers - block,
    {
        append_block(ops, block);
        proof {
            assert(ops@ =~= old(ops)@ + blocks_ops((block + 1) as nat));
        }
        block += 1;
    }
    ops.push(unary(UnaryKind::RmsNorm(NormId::PostTrunk), STREAM, STREAM));
    proof {
        assert(ops@ =~= old(ops)@ + trunk_ops(layers as nat));
    }
}

/// The program of the preprocessor.
pub fn preprocessor_plan() -> (ops: Vec<Op>)
    ensures
        ops@ == preprocessor_ops(),
{
    let mut ops: Vec<Op> = Vec::new();
    append_preprocessor(&mut ops);
    proof {
        assert(ops@ =~= preprocessor_ops());
    }
    ops
}

/// The program of the block with the given index.
pub fn block_plan(block: u32) -> (ops: Vec<Op>)
    ensures
        ops@ == block_ops(block),
{
    let mut ops: Vec<Op> = Vec::new();
    append_block(&mut ops, block);
    proof {
        assert(ops@ =~= block_ops(block));
    }
    ops
}

/// The program of the trunk: every block in index order, then the closing norm.
pub fn trunk_plan(config: &AIMv2Config) -> (ops: Vec<Op>)
    ensures
        ops@ == trunk_ops(config@.num_hidden_layers as nat),
{
    let mut ops: Vec<Op> = Vec::new();
    append_trunk(&mut ops, config.num_hidden_layers());
    proof {
        assert(ops@ =~= trunk_ops(config@.num_hidden_layers as nat));
    }
    ops
}

/// The program of the whole model: the preprocessor, then the trunk.
pub fn model_plan(config: &AIMv2Config) -> (ops: Vec<Op>)
    ensures
        ops@ == model_ops(config@.num_hidden_layers as nat),
{
    let mut ops: Vec<Op> = Vec::new();
    append_preprocessor(&mut ops);
    append_trunk(&mut ops, config.num_hidden_layers());
    proof {
        assert(ops@ =~= model_ops(config@.num_hidden_layers as nat));
    }
    ops
}

} // verus!

//! The value of a term under an interpretation of the operations.
//!
//! The library does no tensor arithmetic itself. What it can say about values it says for
//! every interpretation at once: whatever the operations compute, the wiring of the recipe
//! has the consequences stated here.

use vstd::prelude::*;
use crate::plan::{
    binary_term, initial_registers, lemma_model_ops, lemma_run_keeps_registers, model_ops,
    op_in_range, run, run_prefix, step, unary_term, BinaryKind, Op, UnaryKind, SLOTS, STREAM,
};
use crate::term::{
    attention_branch_term, block_middle_term, block_term, feed_forward_branch_term, model_term,
    preprocessor_term, trunk_term, LinearId, NormId, Term,
};

verus! {

/// An interpretation of the operations over values of type `V`.
#[verifier::reject_recursive_types(V)]
pub struct Algebra<V> {
    pub patches: spec_fn(V) -> V,
    pub linear: spec_fn(LinearId, V) -> V,
    pub add_positions: spec_fn(V) -> V,
    pub rms_norm: spec_fn(NormId, V) -> V,
    pub split_heads: spec_fn(V) -> V,
    pub merge_heads: spec_fn(V) -> V,
    pub scores: spec_fn(V, V) -> V,
    pub scale: spec_fn(V) -> V,
    pub softmax: spec_fn(V) -> V,
    pub weighted: spec_fn(V, V) -> V,
    pub silu: spec_fn(V) -> V,
    pub mul: spec_fn(V, V) -> V,
    pub add: spec_fn(V, V) -> V,
}

/// The value of a term when the image has the value `image`.
pub open spec fn eval<V>(alg: Algebra<V>, image: V, t: Term) -> V
    decreases t,
{
    match t {
        Term::Image => image,
        Term::Patches(x) => (alg.patches)(eval(alg, image, *x)),
        Term::Linear(l, x) => (alg.linear)(l, eval(alg, image, *x)),
        Term::AddPositions(x) => (alg.add_positions)(eval(alg, image, *x)),
        Term::RmsNorm(n, x) => (alg.rms_norm)(n, eval(alg, image, *x)),
        Term::SplitHeads(x) => (alg.split_heads)(eval(alg, image, *x)),
        Term::MergeHeads(x) => (alg.merge_heads)(eval(alg, image, *x)),
        Term::Scores(q, k) => (alg.scores)(eval(alg, image, *q), eval(alg, image, *k)),
        Term::Scale(x) => (alg.scale)(eval(alg, image, *x)),
        Term::Softmax(x) => (alg.softmax)(eval(alg, image, *x)),
        Term::Weighted(w, v) => (alg.weighted)(eval(alg, image, *w), eval(alg, image, *v)),
        Term::Silu(x) => (alg.silu)(eval(alg, image, *x)),
        Term::Mul(a, b) => (alg.mul)(eval(alg, image, *a), eval(alg, image, *b)),
        Term::Add(a, b) => (alg.add)(eval(alg, image, *a), eval(alg, image, *b)),
    }
}

/// The two closing projections of a block return `zero` on every input, and adding `zero`
/// changes nothing.
pub open spec fn block_is_silent<V>(alg: Algebra<V>, block: u32, zero: V) -> bool {
    &&& forall|v: V| #[trigger] (alg.linear)(LinearId::Output(block), v) == zero
    &&& forall|v: V| #[trigger] (alg.linear)(LinearId::Down(block), v) == zero
    &&& forall|v: V| #[trigger] (alg.add)(v, zero) == v
}

/// A block whose closing projections return zero is the identity: its input goes through
/// both residual additions unchanged.
pub proof fn lemma_silent_block_is_identity<V>(
    alg: Algebra<V>,
    image: V,
    block: u32,
    x: Term,
    zero: V,
)
    requires
        block_is_silent(alg, block, zero),
    ensures
        eval(alg, image, block_term(block, x)) == eval(alg, image, x),
{
    let h = block_middle_term(block, x);
    let a = attention_branch_term(block, x);
    let f = feed_forward_branch_term(block, h);
    assert(eval(alg, image, a) == zero);
    assert(eval(alg, image, h) == (alg.add)(eval(alg, image, x), eval(alg, image, a)));
    assert(eval(alg, image, f) == zero);
    assert(eval(alg, image, block_term(block, x)) == (alg.add)(
        eval(alg, image, h),
        eval(alg, image, f),
    ));
}

/// A block is two residual additions: its value is the value of its input, plus the
/// attention of the normalized input, plus the feed-forward result of the normalized sum.
pub proof fn lemma_block_value<V>(alg: Algebra<V>, image: V, block: u32, x: Term)
    ensures
        eval(alg, image, block_term(block, x)) == (alg.add)(
            eval(alg, image, block_middle_term(block, x)),
            eval(alg, image, feed_forward_branch_term(block, block_middle_term(block, x))),
        ),
        eval(alg, image, block_middle_term(block, x)) == (alg.add)(
            eval(alg, image, x),
            eval(alg, image, attention_branch_term(block, x)),
        ),
{
}

/// The value of a trunk without blocks is the closing norm of its input, and the value of a
/// model without blocks is the closing norm of the embedded patches, exactly.
pub proof fn lemma_empty_trunk_value<V>(alg: Algebra<V>, image: V, x: Term)
    ensures
        eval(alg, image, trunk_term(0, x)) == (alg.rms_norm)(NormId::PostTrunk, eval(alg, image, x)),
        eval(alg, image, model_term(0, Term::Image)) == (alg.rms_norm)(
            NormId::PostTrunk,
            eval(alg, image, preprocessor_term(Term::Image)),
        ),
{
}

/// The value that a unary operation makes of the value `x`.
pub open spec fn unary_value<V>(alg: Algebra<V>, kind: UnaryKind, x: V) -> V {
    match kind {
        UnaryKind::Patches => (alg.patches)(x),
        UnaryKind::Linear(l) => (alg.linear)(l, x),
        UnaryKind::AddPositions => (alg.add_positions)(x),
        UnaryKind::RmsNorm(n) => (alg.rms_norm)(n, x),
        UnaryKind::SplitHeads => (alg.split_heads)(x),
        UnaryKind::MergeHeads => (alg.merge_heads)(x),
        UnaryKind::Scale => (alg.scale)(x),
        UnaryKind::Softmax => (alg.softmax)(x),
        UnaryKind::Silu => (alg.silu)(x),
    }
}

/// The value that a binary operation makes of the values `a` and `b`.
pub open spec fn binary_value<V>(alg: Algebra<V>, kind: BinaryKind, a: V, b: V) -> V {
    match kind {
        BinaryKind::Scores => (alg.scores)(a, b),
        BinaryKind::Weighted => (alg.weighted)(a, b),
        BinaryKind::Mul => (alg.mul)(a, b),
        BinaryKind::Add => (alg.add)(a, b),
    }
}

/// The registers of a machine that holds values, after one instruction.
pub open spec fn step_values<V>(alg: Algebra<V>, op: Op, regs: Seq<V>) -> Seq<V> {
    if regs.len() == SLOTS && op_in_range(op) {
        match op {
            Op::Unary { kind, src, dst } => regs.update(
                dst as int,
                unary_value(alg, kind, regs[src as int]),
            ),
            Op::Binary { kind, lhs, rhs, dst } => regs.update(
                dst as int,
                binary_value(alg, kind, regs[lhs as int], regs[rhs as int]),
            ),
        }
    } else {
        regs
    }
}

/// The registers of a machine that holds values, after the first `k` instructions of `ops`.
pub open spec fn run_values_prefix<V>(alg: Algebra<V>, ops: Seq<Op>, k: nat, regs: Seq<V>) -> Seq<V>
    decreases k,
{
    if k == 0 || k > ops.len() {
        regs
    } else {
        step_values(alg, ops[k - 1], run_values_prefix(alg, ops, (k - 1) as nat, regs))
    }
}

/// The registers of a machine that holds values, after the whole program.
pub open spec fn run_values<V>(alg: Algebra<V>, ops: Seq<Op>, regs: Seq<V>) -> Seq<V> {
    run_values_prefix(alg, ops, ops.len(), regs)
}

/// The values of the terms that a list of registers holds.
pub open spec fn values_of<V>(alg: Algebra<V>, image: V, regs: Seq<Term>) -> Seq<V> {
    Seq::new(regs.len(), |i: int| eval(alg, image, regs[i]))
}

/// One instruction on values does what the instruction on terms says.
proof fn lemma_step_values<V>(alg: Algebra<V>, image: V, op: Op, regs: Seq<Term>)
    ensures
        step_values(alg, op, values_of(alg, image, regs)) == values_of(alg, image, step(op, regs)),
{
    if regs.len() == SLOTS && op_in_range(op) {
        match op {
            Op::Unary { kind, src, dst } => {
                assert(eval(alg, image, unary_term(kind, regs[src as int])) == unary_value(
                    alg,
                    kind,
                    eval(alg, image, regs[src as int]),
                ));
            },
            Op::Binary { kind, lhs, rhs, dst } => {
                assert(eval(alg, image, binary_term(kind, regs[lhs as int], regs[rhs as int]))
                    == binary_value(
                    alg,
                    kind,
                    eval(alg, image, regs[lhs as int]),
                    eval(alg, image, regs[rhs as int]),
                ));
            },
        }
    }
    assert(step_values(alg, op, values_of(alg, image, regs)) =~= values_of(
        alg,
        image,
        step(op, regs),
    ));
}

/// A program run on values leaves in each register the value of the term that the program
/// run on terms leaves there.
pub proof fn lemma_run_values<V>(alg: Algebra<V>, image: V, ops: Seq<Op>, k: nat, regs: Seq<Term>)
    ensures
        run_values_prefix(alg, ops, k, values_of(alg, image, regs)) == values_of(
            alg,
            image,
            run_prefix(ops, k, regs),
        ),
    decreases k,
{
    if k != 0 && k <= ops.len() {
        lemma_run_values(alg, image, ops, (k - 1) as nat, regs);
        lemma_step_values(alg, image, ops[k - 1], run_prefix(ops, (k - 1) as nat, regs));
    }
}

/// Whatever the operations compute, the program of the model, carried out instruction by
/// instruction on registers that hold the image, leaves in the stream register the value
/// that the recipe prescribes: the trunk of the embedded patches.
pub proof fn lemma_program_value<V>(alg: Algebra<V>, image: V, n: nat)
    ensures
        run_values(alg, model_ops(n), Seq::new(SLOTS as nat, |i: int| image))[STREAM as int]
            == eval(alg, image, model_term(n, Term::Image)),
{
    let start = initial_registers();
    let ops = model_ops(n);
    assert(values_of(alg, image, start) =~= Seq::new(SLOTS as nat, |i: int| image));
    lemma_run_values(alg, image, ops, ops.len(), start);
    lemma_run_keeps_registers(ops, ops.len(), start);
    lemma_model_ops(n);
    assert(values_of(alg, image, run(ops, start))[STREAM as int] == eval(
        alg,
        image,
        run(ops, start)[STREAM as int],
    ));
}

} // verus!

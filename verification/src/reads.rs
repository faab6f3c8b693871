//! Which parameters each instruction of the forward program reads, and the law that the
//! model's parameter table holds every one of them.

use vstd::prelude::*;
use crate::config::{AIMv2Config, ConfigView};
use crate::params::{
    attention_params, blocks_params, feed_forward_params, linear_has_bias,
    linear_params, model_params, preprocessor_params, ParamId,
};
use crate::plan::{
    attention_ops, block_ops, blocks_ops, feed_forward_ops, model_ops, post_trunk_ops,
    preprocessor_ops, trunk_ops, Op, UnaryKind,
};
use crate::term::NormId;

verus! {

/// The parameters that an instruction reads, in the order in which it needs them.
pub open spec fn op_reads(m: ConfigView, op: Op) -> Seq<ParamId> {
    match op {
        Op::Unary { kind, src, dst } => match kind {
            UnaryKind::Linear(l) => linear_params(m, l),
            UnaryKind::AddPositions => seq![ParamId::PositionEmbedding],
            UnaryKind::RmsNorm(n) => seq![ParamId::Scale(n)],
            _ => Seq::empty(),
        },
        Op::Binary { kind, lhs, rhs, dst } => Seq::empty(),
    }
}

/// Every element of `part` occurs in `whole`.
pub open spec fn includes(whole: Seq<ParamId>, part: Seq<ParamId>) -> bool {
    forall|j: int| 0 <= j < part.len() ==> whole.contains(#[trigger] part[j])
}

/// Every parameter that an instruction of `ops` reads occurs in `params`.
pub open spec fn reads_within(m: ConfigView, ops: Seq<Op>, params: Seq<ParamId>) -> bool {
    forall|i: int| 0 <= i < ops.len() ==> includes(params, op_reads(m, #[trigger] ops[i]))
}

/// A list includes each of the two lists it is joined from, and whatever they include.
proof fn lemma_includes_concat(a: Seq<ParamId>, b: Seq<ParamId>, part: Seq<ParamId>)
    ensures
        includes(a, part) ==> includes(a + b, part),
        includes(b, part) ==> includes(a + b, part),
        includes(a, a),
{
    if includes(a, part) {
        assert forall|j: int| 0 <= j < part.len() implies (a + b).contains(#[trigger] part[j]) by {
            let k = choose|k: int| 0 <= k < a.len() && a[k] == part[j];
            assert((a + b)[k] == part[j]);
        }
    }
    if includes(b, part) {
        assert forall|j: int| 0 <= j < part.len() implies (a + b).contains(#[trigger] part[j]) by {
            let k = choose|k: int| 0 <= k < b.len() && b[k] == part[j];
            assert((a + b)[a.len() + k] == part[j]);
        }
    }
    assert forall|j: int| 0 <= j < a.len() implies a.contains(#[trigger] a[j]) by {
        assert(a[j] == a[j]);
    }
}

/// The parameters that an instruction reads, in the order in which it needs them.
pub fn op_parameters(config: &AIMv2Config, op: Op) -> (reads: Vec<ParamId>)
    ensures
        reads@ == op_reads(config@, op),
{
    let mut reads: Vec<ParamId> = Vec::new();
    match op {
        Op::Unary { kind, src, dst } => match kind {
            UnaryKind::Linear(l) => {
                reads.push(ParamId::Weight(l));
                if linear_has_bias(config, l) {
                    reads.push(ParamId::Bias(l));
                }
            },
            UnaryKind::AddPositions => {
                reads.push(ParamId::PositionEmbedding);
            },
            UnaryKind::RmsNorm(n) => {
                reads.push(ParamId::Scale(n));
            },
            _ => {},
        },
        Op::Binary { kind, lhs, rhs, dst } => {},
    }
    proof {
        assert(reads@ =~= op_reads(config@, op));
    }
    reads
}

/// What the first `k` instructions of a program read, one instruction after the other.
pub open spec fn reads_prefix(m: ConfigView, ops: Seq<Op>, k: nat) -> Seq<ParamId>
    decreases k,
{
    if k == 0 || k > ops.len() {
        Seq::empty()
    } else {
        reads_prefix(m, ops, (k - 1) as nat) + op_reads(m, ops[k - 1])
    }
}

/// What a program reads, one instruction after the other.
pub open spec fn all_reads(m: ConfigView, ops: Seq<Op>) -> Seq<ParamId> {
    reads_prefix(m, ops, ops.len())
}

proof fn lemma_reads_prefix_of_concat(m: ConfigView, a: Seq<Op>, b: Seq<Op>, k: nat)
    requires
        k <= a.len(),
    ensures
        reads_prefix(m, a + b, k) == reads_prefix(m, a, k),
    decreases k,
{
    if k != 0 {
        lemma_reads_prefix_of_concat(m, a, b, (k - 1) as nat);
        assert((a + b)[k - 1] == a[k - 1]);
    }
}

proof fn lemma_reads_concat_prefix(m: ConfigView, a: Seq<Op>, b: Seq<Op>, k: nat)
    requires
        k <= b.len(),
    ensures
        reads_prefix(m, a + b, a.len() + k) == all_reads(m, a) + reads_prefix(m, b, k),
    decreases k,
{
    if k == 0 {
        lemma_reads_prefix_of_concat(m, a, b, a.len());
        assert(all_reads(m, a) + Seq::<ParamId>::empty() =~= all_reads(m, a));
    } else {
        lemma_reads_concat_prefix(m, a, b, (k - 1) as nat);
        assert((a + b)[a.len() + k - 1] == b[k - 1]);
        assert((all_reads(m, a) + reads_prefix(m, b, (k - 1) as nat)) + op_reads(m, b[k - 1])
            =~= all_reads(m, a) + (reads_prefix(m, b, (k - 1) as nat) + op_reads(m, b[k - 1])));
    }
}

/// Two programs run one after the other read what the first reads, then what the second
/// reads.
pub proof fn lemma_all_reads_concat(m: ConfigView, a: Seq<Op>, b: Seq<Op>)
    ensures
        all_reads(m, a + b) == all_reads(m, a) + all_reads(m, b),
{
    lemma_reads_concat_prefix(m, a, b, b.len());
}

proof fn lemma_preprocessor_reads_exactly(m: ConfigView)
    ensures
        all_reads(m, preprocessor_ops()) == preprocessor_params(m),
{
    reveal_with_fuel(reads_prefix, 4);
    assert(all_reads(m, preprocessor_ops()) =~= preprocessor_params(m));
}

proof fn lemma_attention_reads_exactly(m: ConfigView, block: u32)
    ensures
        all_reads(m, attention_ops(block)) == attention_params(m, block),
{
    reveal_with_fuel(reads_prefix, 15);
    assert(all_reads(m, attention_ops(block)) =~= attention_params(m, block));
}

proof fn lemma_feed_forward_reads_exactly(m: ConfigView, block: u32)
    ensures
        all_reads(m, feed_forward_ops(block)) == feed_forward_params(m, block),
{
    reveal_with_fuel(reads_prefix, 8);
    assert(all_reads(m, feed_forward_ops(block)) =~= feed_forward_params(m, block));
}

proof fn lemma_blocks_read_exactly(m: ConfigView, n: nat)
    ensures
        all_reads(m, blocks_ops(n)) == blocks_params(m, n),
    decreases n,
{
    if n > 0 {
        let b = (n - 1) as u32;
        lemma_blocks_read_exactly(m, (n - 1) as nat);
        lemma_attention_reads_exactly(m, b);
        lemma_feed_forward_reads_exactly(m, b);
        lemma_all_reads_concat(m, attention_ops(b), feed_forward_ops(b));
        lemma_all_reads_concat(m, blocks_ops((n - 1) as nat), block_ops(b));
    }
}

/// Read one instruction after the other, the forward program reads the model's parameter
/// table from its first entry to its last: every parameter once, none that is not in the
/// table, and none of the table left unread.
pub proof fn lemma_program_reads_exactly_the_table(m: ConfigView)
    requires
        m.num_hidden_layers >= 0,
    ensures
        all_reads(m, model_ops(m.num_hidden_layers as nat)) == model_params(m),
{
    let n = m.num_hidden_layers as nat;
    lemma_preprocessor_reads_exactly(m);
    lemma_blocks_read_exactly(m, n);
    assert(all_reads(m, post_trunk_ops()) =~= seq![ParamId::Scale(NormId::PostTrunk)]) by {
        reveal_with_fuel(reads_prefix, 2);
    }
    lemma_all_reads_concat(m, blocks_ops(n), post_trunk_ops());
    lemma_all_reads_concat(m, preprocessor_ops(), trunk_ops(n));
    assert(preprocessor_params(m) + (blocks_params(m, n) + seq![ParamId::Scale(NormId::PostTrunk)])
        =~= model_params(m));
}

/// What an instruction reads is part of what the program has read once the instruction
/// has run.
proof fn lemma_reads_in_prefix(m: ConfigView, ops: Seq<Op>, k: nat, i: int)
    requires
        0 <= i < k <= ops.len(),
    ensures
        includes(reads_prefix(m, ops, k), op_reads(m, ops[i])),
    decreases k,
{
    let before = reads_prefix(m, ops, (k - 1) as nat);
    let last = op_reads(m, ops[k - 1]);
    if i == k - 1 {
        lemma_includes_concat(last, Seq::empty(), last);
        lemma_includes_concat(before, last, last);
    } else {
        lemma_reads_in_prefix(m, ops, (k - 1) as nat, i);
        lemma_includes_concat(before, last, op_reads(m, ops[i]));
    }
}

/// Every parameter that the forward program reads is in the model's parameter table, so
/// that a model whose table is bound never meets a parameter it has not looked up.
pub proof fn lemma_program_reads_the_table(m: ConfigView)
    requires
        m.num_hidden_layers >= 0,
    ensures
        reads_within(m, model_ops(m.num_hidden_layers as nat), model_params(m)),
{
    let ops = model_ops(m.num_hidden_layers as nat);
    lemma_program_reads_exactly_the_table(m);
    assert forall|i: int| 0 <= i < ops.len() implies includes(
        model_params(m),
        op_reads(m, #[trigger] ops[i]),
    ) by {
        lemma_reads_in_prefix(m, ops, ops.len(), i);
    }
}

} // verus!

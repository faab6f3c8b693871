//! The numerical recipe of the model, written as symbolic tensor expressions.
//!
//! A `Term` names a tensor by the way it is computed from the input image and the learned
//! parameters. The functions below it say, layer by layer, which term each component of the
//! model produces; everything else in the crate is stated against them.

use vstd::prelude::*;

verus! {

/// A linear projection of the model. The number is the index of the block that owns it.
#[derive(Clone, Copy, Debug, PartialEq, Eq, Structural)]
pub enum LinearId {
    /// Flattened patch to token embedding.
    PatchProjection,
    /// Attention query projection.
    Query(u32),
    /// Attention key projection.
    Key(u32),
    /// Attention value projection.
    Value(u32),
    /// Attention output projection.
    Output(u32),
    /// Gate branch of the feed-forward layer.
    Gate(u32),
    /// Value branch of the feed-forward layer.
    Up(u32),
    /// Projection of the gated product back to the hidden width.
    Down(u32),
}

/// A normalization layer of the model.
#[derive(Clone, Copy, Debug, PartialEq, Eq, Structural)]
pub enum NormId {
    /// The norm in front of the attention of a block.
    First(u32),
    /// The norm in front of the feed-forward layer of a block.
    Second(u32),
    /// The norm that closes the trunk.
    PostTrunk,
}

/// A tensor, named by its computation.
pub enum Term {
    /// The image batch handed to the model.
    Image,
    /// Raster-scan extraction and flattening of the patches of an image batch.
    Patches(Box<Term>),
    /// A linear projection applied along the last axis.
    Linear(LinearId, Box<Term>),
    /// The tensor plus the positional embedding table, broadcast over the batch axis.
    AddPositions(Box<Term>),
    /// Root-mean-square normalization along the last axis, then the learned rescale.
    RmsNorm(NormId, Box<Term>),
    /// `[batch, seq, hidden]` regrouped as `[batch, heads, seq, head_dim]`.
    SplitHeads(Box<Term>),
    /// `[batch, heads, seq, head_dim]` regrouped as `[batch, seq, hidden]`.
    MergeHeads(Box<Term>),
    /// The product of queries with transposed keys, per batch entry and head.
    Scores(Box<Term>, Box<Term>),
    /// The tensor divided by the square root of the head width.
    Scale(Box<Term>),
    /// Numerically stable softmax along the last axis.
    Softmax(Box<Term>),
    /// The product of attention weights with values, per batch entry and head.
    Weighted(Box<Term>, Box<Term>),
    /// The smooth gate `x * sigmoid(x)`, elementwise.
    Silu(Box<Term>),
    /// Elementwise product.
    Mul(Box<Term>, Box<Term>),
    /// Elementwise sum.
    Add(Box<Term>, Box<Term>),
}

/// One projection, reshaped into heads.
pub open spec fn heads_term(l: LinearId, x: Term) -> Term {
    Term::SplitHeads(Box::new(Term::Linear(l, Box::new(x))))
}

/// The attention weights of a block: scores are scaled first, then passed through softmax.
pub open spec fn attention_weights_term(block: u32, x: Term) -> Term {
    Term::Softmax(
        Box::new(
            Term::Scale(
                Box::new(
                    Term::Scores(
                        Box::new(heads_term(LinearId::Query(block), x)),
                        Box::new(heads_term(LinearId::Key(block), x)),
                    ),
                ),
            ),
        ),
    )
}

/// Multi-head self-attention of a block, applied to `x`.
pub open spec fn attention_term(block: u32, x: Term) -> Term {
    Term::Linear(
        LinearId::Output(block),
        Box::new(
            Term::MergeHeads(
                Box::new(
                    Term::Weighted(
                        Box::new(attention_weights_term(block, x)),
                        Box::new(heads_term(LinearId::Value(block), x)),
                    ),
                ),
            ),
        ),
    )
}

/// The gated feed-forward layer of a block, applied to `x`: both branches read `x` itself.
pub open spec fn feed_forward_term(block: u32, x: Term) -> Term {
    Term::Linear(
        LinearId::Down(block),
        Box::new(
            Term::Mul(
                Box::new(Term::Silu(Box::new(Term::Linear(LinearId::Gate(block), Box::new(x))))),
                Box::new(Term::Linear(LinearId::Up(block), Box::new(x))),
            ),
        ),
    )
}

/// What a block adds to its input in its first half.
pub open spec fn attention_branch_term(block: u32, x: Term) -> Term {
    attention_term(block, Term::RmsNorm(NormId::First(block), Box::new(x)))
}

/// What a block adds to its intermediate result in its second half.
pub open spec fn feed_forward_branch_term(block: u32, h: Term) -> Term {
    feed_forward_term(block, Term::RmsNorm(NormId::Second(block), Box::new(h)))
}

/// The intermediate result of a block: the input plus attention of the normalized input.
pub open spec fn block_middle_term(block: u32, x: Term) -> Term {
    Term::Add(Box::new(x), Box::new(attention_branch_term(block, x)))
}

/// One transformer block: each sublayer reads a normalized copy and is added back.
pub open spec fn block_term(block: u32, x: Term) -> Term {
    let h = block_middle_term(block, x);
    Term::Add(Box::new(h), Box::new(feed_forward_branch_term(block, h)))
}

/// The first `n` blocks applied in index order.
pub open spec fn blocks_term(n: nat, x: Term) -> Term
    decreases n,
{
    if n == 0 {
        x
    } else {
        block_term((n - 1) as u32, blocks_term((n - 1) as nat, x))
    }
}

/// The trunk of `n` blocks: the blocks in order, then the closing norm once.
pub open spec fn trunk_term(n: nat, x: Term) -> Term {
    Term::RmsNorm(NormId::PostTrunk, Box::new(blocks_term(n, x)))
}

/// Patch embedding: patches, their projection, and the positions added.
pub open spec fn preprocessor_term(image: Term) -> Term {
    Term::AddPositions(
        Box::new(Term::Linear(LinearId::PatchProjection, Box::new(Term::Patches(Box::new(image))))),
    )
}

/// The whole model with `n` blocks: the trunk applied to the embedded patches.
pub open spec fn model_term(n: nat, image: Term) -> Term {
    trunk_term(n, preprocessor_term(image))
}

/// A trunk without blocks is the closing norm alone, so such a model is the norm of the
/// embedded patches.
pub proof fn lemma_empty_trunk(image: Term)
    ensures
        trunk_term(0, preprocessor_term(image)) == Term::RmsNorm(
            NormId::PostTrunk,
            Box::new(preprocessor_term(image)),
        ),
        model_term(0, image) == Term::RmsNorm(NormId::PostTrunk, Box::new(preprocessor_term(image))),
{
}

/// Adding one block to a trunk wraps the earlier blocks in that block.
pub proof fn lemma_blocks_step(n: nat, x: Term)
    ensures
        blocks_term(n + 1, x) == block_term(n as u32, blocks_term(n, x)),
{
    assert((n + 1 - 1) as nat == n);
}

/// A block changes its input only by adding to it, and what it adds are results of its two
/// closing projections: the output projection of the attention and the down projection of
/// the feed-forward layer.
pub proof fn lemma_block_is_residual(block: u32, x: Term)
    ensures
        exists|mixed: Term, gated: Term|
            block_term(block, x) == Term::Add(
                Box::new(
                    Term::Add(
                        Box::new(x),
                        Box::new(Term::Linear(LinearId::Output(block), Box::new(mixed))),
                    ),
                ),
                Box::new(Term::Linear(LinearId::Down(block), Box::new(gated))),
            ),
{
    let n1 = Term::RmsNorm(NormId::First(block), Box::new(x));
    let mixed = Term::MergeHeads(
        Box::new(
            Term::Weighted(
                Box::new(attention_weights_term(block, n1)),
                Box::new(heads_term(LinearId::Value(block), n1)),
            ),
        ),
    );
    let h = block_middle_term(block, x);
    let n2 = Term::RmsNorm(NormId::Second(block), Box::new(h));
    let gated = Term::Mul(
        Box::new(Term::Silu(Box::new(Term::Linear(LinearId::Gate(block), Box::new(n2))))),
        Box::new(Term::Linear(LinearId::Up(block), Box::new(n2))),
    );
    assert(block_term(block, x) == Term::Add(
        Box::new(
            Term::Add(
                Box::new(x),
                Box::new(Term::Linear(LinearId::Output(block), Box::new(mixed))),
            ),
        ),
        Box::new(Term::Linear(LinearId::Down(block), Box::new(gated))),
    ));
}

} // verus!

//! Tensor shapes: which shape each term of the recipe has, and the laws that make the
//! layers stack.

use vstd::prelude::*;
use crate::config::{
    grid_side_of, head_dim_of, lemma_heads_tile_hidden, lemma_patches_tile_image, num_patches_of,
    patch_dim_of, valid_config, ConfigView,
};
use crate::term::{
    attention_term, attention_weights_term, block_middle_term, block_term, blocks_term,
    feed_forward_term, heads_term, model_term, preprocessor_term, trunk_term, LinearId, NormId,
    Term,
};

verus! {

/// A shape as a sequence of unbounded integers.
pub open spec fn dims(s: Seq<u64>) -> Seq<int> {
    Seq::new(s.len(), |i: int| s[i] as int)
}

/// Number of input features of a projection.
pub open spec fn in_features(m: ConfigView, l: LinearId) -> int {
    match l {
        LinearId::PatchProjection => patch_dim_of(m),
        LinearId::Down(_) => m.intermediate_size,
        _ => m.hidden_size,
    }
}

/// Number of output features of a projection.
pub open spec fn out_features(m: ConfigView, l: LinearId) -> int {
    match l {
        LinearId::Gate(_) => m.intermediate_size,
        LinearId::Up(_) => m.intermediate_size,
        _ => m.hidden_size,
    }
}

/// The shape with its last extent replaced.
pub open spec fn with_last(s: Seq<int>, d: int) -> Seq<int>
    recommends
        s.len() > 0,
{
    s.update(s.len() - 1, d)
}

/// The shape of a well-formed image batch.
pub open spec fn image_shape(m: ConfigView, batch: int) -> Seq<int> {
    seq![batch, m.num_channels, m.image_size, m.image_size]
}

/// The shape of a token sequence.
pub open spec fn token_shape(m: ConfigView, batch: int, seq_len: int) -> Seq<int> {
    seq![batch, seq_len, m.hidden_size]
}

/// Whether a shape is that of a token sequence: three axes, the last of the hidden width.
pub open spec fn is_token_shape(m: ConfigView, s: Seq<int>) -> bool {
    s.len() == 3 && s[2] == m.hidden_size
}

/// The heads share out the hidden width with nothing left over, so that regrouping a token
/// sequence by head moves every scalar and invents none.
pub open spec fn heads_tile(m: ConfigView) -> bool {
    m.num_attention_heads * head_dim_of(m) == m.hidden_size
}

/// The patches cover the image side with nothing left over.
pub open spec fn patches_tile(m: ConfigView) -> bool {
    grid_side_of(m) * m.patch_size == m.image_size
}

/// Shape of the patches cut from images of shape `s`, if `s` is a well-formed image batch.
pub open spec fn patches_shape(m: ConfigView, s: Seq<int>) -> Option<Seq<int>> {
    if s.len() == 4 && s[1] == m.num_channels && s[2] == m.image_size && s[3] == m.image_size
        && patches_tile(m) {
        Some(seq![s[0], num_patches_of(m), patch_dim_of(m)])
    } else {
        None
    }
}

/// Shape of a projection of a tensor of shape `s`.
pub open spec fn linear_shape(m: ConfigView, l: LinearId, s: Seq<int>) -> Option<Seq<int>> {
    if s.len() >= 1 && s.last() == in_features(m, l) {
        Some(with_last(s, out_features(m, l)))
    } else {
        None
    }
}

/// Shape after the positional embedding is added: the table must match patch for patch.
pub open spec fn positions_shape(m: ConfigView, s: Seq<int>) -> Option<Seq<int>> {
    if s.len() == 3 && s[1] == num_patches_of(m) && s[2] == m.hidden_size {
        Some(s)
    } else {
        None
    }
}

/// Shape of a normalized tensor: the last axis must have the length of the scale vector.
pub open spec fn norm_shape(m: ConfigView, s: Seq<int>) -> Option<Seq<int>> {
    if s.len() >= 1 && s.last() == m.hidden_size {
        Some(s)
    } else {
        None
    }
}

/// Shape of a token sequence regrouped by head.
pub open spec fn split_heads_shape(m: ConfigView, s: Seq<int>) -> Option<Seq<int>> {
    if is_token_shape(m, s) && heads_tile(m) {
        Some(seq![s[0], m.num_attention_heads, s[1], head_dim_of(m)])
    } else {
        None
    }
}

/// Shape of per-head results gathered back into a token sequence.
pub open spec fn merge_heads_shape(m: ConfigView, s: Seq<int>) -> Option<Seq<int>> {
    if s.len() == 4 && s[1] == m.num_attention_heads && s[3] == head_dim_of(m) && heads_tile(m) {
        Some(seq![s[0], s[2], m.hidden_size])
    } else {
        None
    }
}

/// Shape of the pairwise scores of queries `q` against keys `k`.
pub open spec fn scores_shape(q: Seq<int>, k: Seq<int>) -> Option<Seq<int>> {
    if q.len() == 4 && k.len() == 4 && q[0] == k[0] && q[1] == k[1] && q[3] == k[3] {
        Some(seq![q[0], q[1], q[2], k[2]])
    } else {
        None
    }
}

/// Shape of attention weights `w` applied to values `v`.
pub open spec fn weighted_shape(w: Seq<int>, v: Seq<int>) -> Option<Seq<int>> {
    if w.len() == 4 && v.len() == 4 && w[0] == v[0] && w[1] == v[1] && w[3] == v[2] {
        Some(seq![w[0], w[1], w[2], v[3]])
    } else {
        None
    }
}

/// Shape of an elementwise combination: both sides must agree, nothing is broadcast.
pub open spec fn same_shape(a: Seq<int>, b: Seq<int>) -> Option<Seq<int>> {
    if a == b {
        Some(a)
    } else {
        None
    }
}

/// Shape of a softmax along the last axis, which must exist.
pub open spec fn softmax_shape(s: Seq<int>) -> Option<Seq<int>> {
    if s.len() >= 1 {
        Some(s)
    } else {
        None
    }
}

/// The shape of a term when the image batch has shape `image`, or `None` where some
/// operation in it is applied to a shape it does not accept.
pub open spec fn term_shape(m: ConfigView, image: Seq<int>, t: Term) -> Option<Seq<int>>
    decreases t,
{
    match t {
        Term::Image => Some(image),
        Term::Patches(x) => match term_shape(m, image, *x) {
            Some(s) => patches_shape(m, s),
            None => None,
        },
        Term::Linear(l, x) => match term_shape(m, image, *x) {
            Some(s) => linear_shape(m, l, s),
            None => None,
        },
        Term::AddPositions(x) => match term_shape(m, image, *x) {
            Some(s) => positions_shape(m, s),
            None => None,
        },
        Term::RmsNorm(_, x) => match term_shape(m, image, *x) {
            Some(s) => norm_shape(m, s),
            None => None,
        },
        Term::SplitHeads(x) => match term_shape(m, image, *x) {
            Some(s) => split_heads_shape(m, s),
            None => None,
        },
        Term::MergeHeads(x) => match term_shape(m, image, *x) {
            Some(s) => merge_heads_shape(m, s),
            None => None,
        },
        Term::Scores(q, k) => match (term_shape(m, image, *q), term_shape(m, image, *k)) {
            (Some(a), Some(b)) => scores_shape(a, b),
            _ => None,
        },
        Term::Scale(x) => term_shape(m, image, *x),
        Term::Softmax(x) => match term_shape(m, image, *x) {
            Some(s) => softmax_shape(s),
            None => None,
        },
        Term::Weighted(w, v) => match (term_shape(m, image, *w), term_shape(m, image, *v)) {
            (Some(a), Some(b)) => weighted_shape(a, b),
            _ => None,
        },
        Term::Silu(x) => term_shape(m, image, *x),
        Term::Mul(a, b) => match (term_shape(m, image, *a), term_shape(m, image, *b)) {
            (Some(a), Some(b)) => same_shape(a, b),
            _ => None,
        },
        Term::Add(a, b) => match (term_shape(m, image, *a), term_shape(m, image, *b)) {
            (Some(a), Some(b)) => same_shape(a, b),
            _ => None,
        },
    }
}

/// The shape that a layer gives to an input that may itself have no shape.
pub open spec fn through(input: Option<Seq<int>>, layer: spec_fn(Seq<int>) -> Option<Seq<int>>) -> Option<
    Seq<int>,
> {
    match input {
        Some(s) => layer(s),
        None => None,
    }
}

/// Shape of the attention weights of a token sequence: one row per query, one column per key.
pub open spec fn attention_weights_shape(m: ConfigView, s: Seq<int>) -> Option<Seq<int>> {
    if is_token_shape(m, s) && heads_tile(m) {
        Some(seq![s[0], m.num_attention_heads, s[1], s[1]])
    } else {
        None
    }
}

/// Shape of the attention of a tensor of shape `s`: a token sequence goes through unchanged,
/// anything else is refused.
pub open spec fn attention_shape(m: ConfigView, s: Seq<int>) -> Option<Seq<int>> {
    if is_token_shape(m, s) && heads_tile(m) {
        Some(s)
    } else {
        None
    }
}

/// Shape inside the feed-forward layer, between its projections.
pub open spec fn feed_forward_hidden_shape(m: ConfigView, s: Seq<int>) -> Option<Seq<int>> {
    if s.len() >= 1 && s.last() == m.hidden_size {
        Some(with_last(s, m.intermediate_size))
    } else {
        None
    }
}

/// Shape of the feed-forward layer's result: the input's own, if its last axis has the
/// hidden width.
pub open spec fn feed_forward_shape(m: ConfigView, s: Seq<int>) -> Option<Seq<int>> {
    norm_shape(m, s)
}

/// Shape of a block's result.
pub open spec fn block_shape(m: ConfigView, s: Seq<int>) -> Option<Seq<int>> {
    attention_shape(m, s)
}

/// Shape of the result of a trunk of `n` blocks. Without blocks only the closing norm looks
/// at the input.
pub open spec fn trunk_shape(m: ConfigView, n: nat, s: Seq<int>) -> Option<Seq<int>> {
    if n == 0 {
        norm_shape(m, s)
    } else {
        block_shape(m, s)
    }
}

/// Shape of the embedded patches of an image batch of shape `s`.
pub open spec fn preprocessor_shape(m: ConfigView, s: Seq<int>) -> Option<Seq<int>> {
    if patches_shape(m, s) is Some {
        Some(token_shape(m, s[0], num_patches_of(m)))
    } else {
        None
    }
}

/// Shape of the model's result for an image batch of shape `s`.
pub open spec fn model_shape(m: ConfigView, s: Seq<int>) -> Option<Seq<int>> {
    preprocessor_shape(m, s)
}

/// A valid configuration tiles: heads share out the hidden width, patches cover the image.
pub proof fn lemma_valid_tiles(m: ConfigView)
    requires
        valid_config(m),
    ensures
        heads_tile(m),
        patches_tile(m),
{
    lemma_heads_tile_hidden(m);
    lemma_patches_tile_image(m);
    assert(m.num_attention_heads * head_dim_of(m) == head_dim_of(m) * m.num_attention_heads)
        by (nonlinear_arith);
}

/// Replacing the last extent by itself changes nothing.
proof fn lemma_with_last_same(s: Seq<int>)
    requires
        s.len() >= 1,
    ensures
        with_last(s, s.last()) == s,
{
    assert(with_last(s, s.last()) =~= s);
}

/// A query, key or value projection followed by the regrouping by head.
pub proof fn lemma_heads_shape(m: ConfigView, image: Seq<int>, l: LinearId, x: Term)
    requires
        in_features(m, l) == m.hidden_size,
        out_features(m, l) == m.hidden_size,
    ensures
        term_shape(m, image, heads_term(l, x)) == through(
            term_shape(m, image, x),
            |s: Seq<int>| split_heads_shape(m, s),
        ),
{
    let lin = Term::Linear(l, Box::new(x));
    assert(term_shape(m, image, lin) == through(
        term_shape(m, image, x),
        |s: Seq<int>| linear_shape(m, l, s),
    ));
    if term_shape(m, image, x) is Some {
        let s = term_shape(m, image, x).unwrap();
        if s.len() >= 1 && s.last() == m.hidden_size {
            lemma_with_last_same(s);
        }
    }
}

/// The attention weights of a block.
pub proof fn lemma_attention_weights_shape(m: ConfigView, image: Seq<int>, block: u32, x: Term)
    ensures
        term_shape(m, image, attention_weights_term(block, x)) == through(
            term_shape(m, image, x),
            |s: Seq<int>| attention_weights_shape(m, s),
        ),
{
    lemma_heads_shape(m, image, LinearId::Query(block), x);
    lemma_heads_shape(m, image, LinearId::Key(block), x);
    let q = heads_term(LinearId::Query(block), x);
    let k = heads_term(LinearId::Key(block), x);
    let scores = Term::Scores(Box::new(q), Box::new(k));
    let scaled = Term::Scale(Box::new(scores));
    assert(term_shape(m, image, scaled) == term_shape(m, image, scores));
    assert(term_shape(m, image, attention_weights_term(block, x)) == through(
        term_shape(m, image, scaled),
        |s: Seq<int>| softmax_shape(s),
    ));
}

/// Attention gives a token sequence the shape it came with, for every batch size and every
/// number of tokens, and has no shape on anything else.
pub proof fn lemma_attention_shape(m: ConfigView, image: Seq<int>, block: u32, x: Term)
    ensures
        term_shape(m, image, attention_term(block, x)) == through(
            term_shape(m, image, x),
            |s: Seq<int>| attention_shape(m, s),
        ),
{
    lemma_attention_weights_shape(m, image, block, x);
    lemma_heads_shape(m, image, LinearId::Value(block), x);
    let w = attention_weights_term(block, x);
    let v = heads_term(LinearId::Value(block), x);
    let mixed = Term::Weighted(Box::new(w), Box::new(v));
    let merged = Term::MergeHeads(Box::new(mixed));
    assert(term_shape(m, image, mixed) == through(
        term_shape(m, image, x),
        |s: Seq<int>| split_heads_shape(m, s),
    ));
    assert(term_shape(m, image, merged) == through(
        term_shape(m, image, mixed),
        |s: Seq<int>| merge_heads_shape(m, s),
    ));
    assert(term_shape(m, image, attention_term(block, x)) == through(
        term_shape(m, image, merged),
        |s: Seq<int>| linear_shape(m, LinearId::Output(block), s),
    ));
    if term_shape(m, image, x) is Some {
        let s = term_shape(m, image, x).unwrap();
        if is_token_shape(m, s) && heads_tile(m) {
            assert(seq![s[0], s[1], m.hidden_size] =~= s);
            lemma_with_last_same(s);
        }
    }
}

/// The feed-forward layer gives any tensor whose last axis has the hidden width the shape it
/// came with, and has no shape on anything else.
pub proof fn lemma_feed_forward_shape(m: ConfigView, image: Seq<int>, block: u32, x: Term)
    ensures
        term_shape(m, image, feed_forward_term(block, x)) == through(
            term_shape(m, image, x),
            |s: Seq<int>| feed_forward_shape(m, s),
        ),
{
    let gate = Term::Linear(LinearId::Gate(block), Box::new(x));
    let up = Term::Linear(LinearId::Up(block), Box::new(x));
    let gated = Term::Silu(Box::new(gate));
    let product = Term::Mul(Box::new(gated), Box::new(up));
    assert(term_shape(m, image, gate) == through(
        term_shape(m, image, x),
        |s: Seq<int>| feed_forward_hidden_shape(m, s),
    ));
    assert(term_shape(m, image, up) == term_shape(m, image, gate));
    assert(term_shape(m, image, gated) == term_shape(m, image, gate));
    assert(term_shape(m, image, product) == term_shape(m, image, gate));
    assert(term_shape(m, image, feed_forward_term(block, x)) == through(
        term_shape(m, image, product),
        |s: Seq<int>| linear_shape(m, LinearId::Down(block), s),
    ));
    if term_shape(m, image, x) is Some {
        let s = term_shape(m, image, x).unwrap();
        if s.len() >= 1 && s.last() == m.hidden_size {
            assert(with_last(with_last(s, m.intermediate_size), m.hidden_size) =~= s);
        }
    }
}

/// A block gives a token sequence the shape it came with, and so does its first half; on
/// anything else neither has a shape.
pub proof fn lemma_block_shape(m: ConfigView, image: Seq<int>, block: u32, x: Term)
    ensures
        term_shape(m, image, block_middle_term(block, x)) == through(
            term_shape(m, image, x),
            |s: Seq<int>| block_shape(m, s),
        ),
        term_shape(m, image, block_term(block, x)) == through(
            term_shape(m, image, x),
            |s: Seq<int>| block_shape(m, s),
        ),
{
    let n1 = Term::RmsNorm(NormId::First(block), Box::new(x));
    assert(term_shape(m, image, n1) == through(
        term_shape(m, image, x),
        |s: Seq<int>| norm_shape(m, s),
    ));
    lemma_attention_shape(m, image, block, n1);
    let h = block_middle_term(block, x);
    let n2 = Term::RmsNorm(NormId::Second(block), Box::new(h));
    assert(term_shape(m, image, n2) == through(
        term_shape(m, image, h),
        |s: Seq<int>| norm_shape(m, s),
    ));
    lemma_feed_forward_shape(m, image, block, n2);
}

/// Stacked blocks give a token sequence the shape it came with.
pub proof fn lemma_blocks_shape(m: ConfigView, image: Seq<int>, n: nat, x: Term)
    requires
        n > 0,
    ensures
        term_shape(m, image, blocks_term(n, x)) == through(
            term_shape(m, image, x),
            |s: Seq<int>| block_shape(m, s),
        ),
    decreases n,
{
    let inner = blocks_term((n - 1) as nat, x);
    lemma_block_shape(m, image, (n - 1) as u32, inner);
    if n > 1 {
        lemma_blocks_shape(m, image, (n - 1) as nat, x);
    }
}

/// The trunk gives a token sequence the shape it came with. A trunk without blocks is the
/// closing norm alone and accepts whatever that norm accepts.
pub proof fn lemma_trunk_shape(m: ConfigView, image: Seq<int>, n: nat, x: Term)
    ensures
        term_shape(m, image, trunk_term(n, x)) == through(
            term_shape(m, image, x),
            |s: Seq<int>| trunk_shape(m, n, s),
        ),
{
    let stacked = blocks_term(n, x);
    assert(term_shape(m, image, trunk_term(n, x)) == through(
        term_shape(m, image, stacked),
        |s: Seq<int>| norm_shape(m, s),
    ));
    if n > 0 {
        lemma_blocks_shape(m, image, n, x);
    }
}

/// The preprocessor turns a well-formed image batch into `[batch, num_patches, hidden]`, and
/// accepts no other input.
pub proof fn lemma_preprocessor_shape(m: ConfigView, image: Seq<int>, x: Term)
    ensures
        term_shape(m, image, preprocessor_term(x)) == through(
            term_shape(m, image, x),
            |s: Seq<int>| preprocessor_shape(m, s),
        ),
{
    let cut = Term::Patches(Box::new(x));
    let projected = Term::Linear(LinearId::PatchProjection, Box::new(cut));
    assert(term_shape(m, image, cut) == through(
        term_shape(m, image, x),
        |s: Seq<int>| patches_shape(m, s),
    ));
    assert(term_shape(m, image, projected) == through(
        term_shape(m, image, cut),
        |s: Seq<int>| linear_shape(m, LinearId::PatchProjection, s),
    ));
    if term_shape(m, image, x) is Some {
        let s = term_shape(m, image, x).unwrap();
        if patches_shape(m, s) is Some {
            let p = patches_shape(m, s).unwrap();
            assert(with_last(p, m.hidden_size) =~= token_shape(m, s[0], num_patches_of(m)));
        }
    }
}

/// The whole model turns a well-formed image batch into `[batch, num_patches, hidden]`,
/// however many blocks the trunk has, and accepts no other input.
pub proof fn lemma_model_shape(m: ConfigView, image: Seq<int>, n: nat)
    requires
        valid_config(m),
    ensures
        term_shape(m, image, model_term(n, Term::Image)) == model_shape(m, image),
{
    lemma_valid_tiles(m);
    assert(term_shape(m, image, Term::Image) == Some(image));
    lemma_preprocessor_shape(m, image, Term::Image);
    lemma_trunk_shape(m, image, n, preprocessor_term(Term::Image));
}

/// In a valid configuration attention keeps `[batch, seq, hidden]` for every batch size and
/// every number of tokens.
pub proof fn lemma_attention_keeps_token_shape(m: ConfigView, batch: int, seq_len: int)
    requires
        valid_config(m),
    ensures
        attention_shape(m, token_shape(m, batch, seq_len)) == Some(token_shape(m, batch, seq_len)),
        block_shape(m, token_shape(m, batch, seq_len)) == Some(token_shape(m, batch, seq_len)),
        forall|n: nat| #[trigger]
            trunk_shape(m, n, token_shape(m, batch, seq_len)) == Some(
                token_shape(m, batch, seq_len),
            ),
{
    lemma_valid_tiles(m);
}

} // verus!

//! Shape checks of the layers: what each layer returns for an input shape, and the error it
//! reports for a shape it does not accept.

use vstd::prelude::*;
use crate::config::{num_patches_of, AIMv2Config, ConfigView};
use crate::shape::{
    attention_shape, block_shape, dims, feed_forward_hidden_shape, feed_forward_shape,
    lemma_valid_tiles, model_shape, norm_shape, preprocessor_shape, token_shape, trunk_shape,
    with_last,
};

verus! {

/// The layer that refused a shape.
#[derive(Clone, Copy, Debug, PartialEq, Eq)]
pub enum LayerKind {
    Preprocessor,
    Norm,
    Attention,
    FeedForward,
}

/// What is wrong with a shape, with the expected and the actual extent.
#[allow(inconsistent_fields)]
#[derive(Clone, Copy, Debug, PartialEq, Eq)]
pub enum ShapeFault {
    /// The tensor has the wrong number of axes. For a layer that takes any tensor with at
    /// least one axis, `expected` is 1.
    Rank { expected: usize, actual: usize },
    /// The last axis does not have the width that the layer's parameters have.
    LastDim { expected: u64, actual: u64 },
    /// The image batch has the wrong number of channels.
    Channels { expected: u64, actual: u64 },
    /// The images are not square.
    NonSquare { height: u64, width: u64 },
    /// The image side is not a multiple of the patch side.
    NotDivisible { size: u64, patch_size: u64 },
    /// The image side is not the one the positional embedding was learned for.
    ImageSize { expected: u64, actual: u64 },
}

/// A shape that violates a layer's precondition, with the layer that found it.
#[derive(Clone, Copy, Debug, PartialEq, Eq)]
pub struct ShapeError {
    pub layer: LayerKind,
    pub fault: ShapeFault,
}

/// The error of a layer that needs a last axis of width `expected`, for a shape without one.
pub open spec fn last_dim_fault(layer: LayerKind, expected: int, s: Seq<u64>) -> ShapeError {
    if s.len() == 0 {
        ShapeError { layer, fault: ShapeFault::Rank { expected: 1, actual: 0 } }
    } else {
        ShapeError {
            layer,
            fault: ShapeFault::LastDim { expected: expected as u64, actual: s.last() },
        }
    }
}

/// The error that attention reports for a shape that is no token sequence.
pub open spec fn attention_fault(m: ConfigView, s: Seq<u64>) -> ShapeError {
    if s.len() != 3 {
        ShapeError {
            layer: LayerKind::Attention,
            fault: ShapeFault::Rank { expected: 3, actual: s.len() as usize },
        }
    } else {
        ShapeError {
            layer: LayerKind::Attention,
            fault: ShapeFault::LastDim { expected: m.hidden_size as u64, actual: s[2] },
        }
    }
}

/// The error that a block reports: that of its first norm if the norm refuses the input,
/// else that of its attention.
pub open spec fn block_fault(m: ConfigView, s: Seq<u64>) -> ShapeError {
    if norm_shape(m, dims(s)) is None {
        last_dim_fault(LayerKind::Norm, m.hidden_size, s)
    } else {
        attention_fault(m, s)
    }
}

/// The error that a trunk of `n` blocks reports: that of its first block, or of the closing
/// norm where it has no block.
pub open spec fn trunk_fault(m: ConfigView, n: nat, s: Seq<u64>) -> ShapeError {
    if n == 0 {
        last_dim_fault(LayerKind::Norm, m.hidden_size, s)
    } else {
        block_fault(m, s)
    }
}

/// The fault of an image batch that the preprocessor refuses: the first of rank, channel
/// count, squareness, divisibility by the patch side, and image side.
pub open spec fn preprocessor_fault(m: ConfigView, s: Seq<u64>) -> ShapeFault {
    if s.len() != 4 {
        ShapeFault::Rank { expected: 4, actual: s.len() as usize }
    } else if s[1] != m.num_channels {
        ShapeFault::Channels { expected: m.num_channels as u64, actual: s[1] }
    } else if s[2] != s[3] {
        ShapeFault::NonSquare { height: s[2], width: s[3] }
    } else if s[2] % (m.patch_size as u64) != 0 {
        ShapeFault::NotDivisible { size: s[2], patch_size: m.patch_size as u64 }
    } else {
        ShapeFault::ImageSize { expected: m.image_size as u64, actual: s[2] }
    }
}

/// A copy of a shape.
pub(crate) fn copy_shape(shape: &Vec<u64>) -> (copy: Vec<u64>)
    ensures
        copy@ == shape@,
{
    let mut copy: Vec<u64> = Vec::new();
    let mut i: usize = 0;
    while i < shape.len()
        invariant
            i <= shape.len(),
            copy@ == shape@.subrange(0, i as int),
        decreases shape.len() - i,
    {
        copy.push(shape[i]);
        proof {
            assert(copy@ =~= shape@.subrange(0, i + 1));
        }
        i += 1;
    }
    proof {
        assert(shape@.subrange(0, shape.len() as int) =~= shape@);
    }
    copy
}

/// Checks that the last axis of `input` has width `width`, for the layer `layer`.
fn check_last_dim(layer: LayerKind, width: u32, input: &Vec<u64>) -> (checked: Result<(), ShapeError>)
    ensures
        checked is Ok <==> input@.len() >= 1 && input@.last() == width,
        checked is Err ==> checked->Err_0 == last_dim_fault(layer, width as int, input@),
{
    let rank: usize = input.len();
    if rank == 0 {
        return Err(ShapeError { layer, fault: ShapeFault::Rank { expected: 1, actual: 0 } });
    }
    let last: u64 = input[rank - 1];
    if last != width as u64 {
        return Err(
            ShapeError { layer, fault: ShapeFault::LastDim { expected: width as u64, actual: last } },
        );
    }
    Ok(())
}

/// Checks that `input` is a token sequence `[batch, seq, hidden]`.
fn check_token_shape(config: &AIMv2Config, input: &Vec<u64>) -> (checked: Result<(), ShapeError>)
    ensures
        checked is Ok <==> attention_shape(config@, dims(input@)) is Some,
        checked is Err ==> checked->Err_0 == attention_fault(config@, input@),
{
    proof {
        use_type_invariant(config);
        lemma_valid_tiles(config@);
    }
    let rank: usize = input.len();
    if rank != 3 {
        return Err(
            ShapeError {
                layer: LayerKind::Attention,
                fault: ShapeFault::Rank { expected: 3, actual: rank },
            },
        );
    }
    let hidden: u64 = config.hidden_size() as u64;
    if input[2] != hidden {
        return Err(
            ShapeError {
                layer: LayerKind::Attention,
                fault: ShapeFault::LastDim { expected: hidden, actual: input[2] },
            },
        );
    }
    Ok(())
}

/// The shape that a norm returns for `input`: the same shape, provided the last axis has the
/// length of the scale vector. A mismatch is reported, never broadcast.
pub fn norm_output_shape(config: &AIMv2Config, input: &Vec<u64>) -> (out: Result<Vec<u64>, ShapeError>)
    ensures
        match out {
            Ok(shape) => norm_shape(config@, dims(input@)) == Some(dims(shape@)) && shape@
                == input@,
            Err(e) => norm_shape(config@, dims(input@)) is None && e == last_dim_fault(
                LayerKind::Norm,
                config@.hidden_size,
                input@,
            ),
        },
{
    match check_last_dim(LayerKind::Norm, config.hidden_size(), input) {
        Err(e) => Err(e),
        Ok(()) => Ok(copy_shape(input)),
    }
}

/// The shape that attention returns for `input`: the same shape, provided `input` is a token
/// sequence `[batch, seq, hidden]`.
pub fn attention_output_shape(config: &AIMv2Config, input: &Vec<u64>) -> (out: Result<
    Vec<u64>,
    ShapeError,
>)
    ensures
        match out {
            Ok(shape) => attention_shape(config@, dims(input@)) == Some(dims(shape@)) && shape@
                == input@,
            Err(e) => attention_shape(config@, dims(input@)) is None && e == attention_fault(
                config@,
                input@,
            ),
        },
{
    match check_token_shape(config, input) {
        Err(e) => Err(e),
        Ok(()) => Ok(copy_shape(input)),
    }
}

/// The shape between the projections of the feed-forward layer: that of `input` with the
/// last axis widened to the intermediate width.
pub fn feed_forward_inner_shape(config: &AIMv2Config, input: &Vec<u64>) -> (out: Result<
    Vec<u64>,
    ShapeError,
>)
    ensures
        match out {
            Ok(shape) => feed_forward_hidden_shape(config@, dims(input@)) == Some(dims(shape@)),
            Err(e) => feed_forward_hidden_shape(config@, dims(input@)) is None && e
                == last_dim_fault(LayerKind::FeedForward, config@.hidden_size, input@),
        },
{
    match check_last_dim(LayerKind::FeedForward, config.hidden_size(), input) {
        Err(e) => Err(e),
        Ok(()) => {
            let mut shape = copy_shape(input);
            let last: usize = shape.len() - 1;
            shape.set(last, config.intermediate_size() as u64);
            proof {
                assert(dims(shape@) =~= with_last(dims(input@), config@.intermediate_size));
            }
            Ok(shape)
        },
    }
}

/// The shape that the feed-forward layer returns for `input`: the same shape, provided the
/// last axis has the hidden width.
pub fn feed_forward_output_shape(config: &AIMv2Config, input: &Vec<u64>) -> (out: Result<
    Vec<u64>,
    ShapeError,
>)
    ensures
        match out {
            Ok(shape) => feed_forward_shape(config@, dims(input@)) == Some(dims(shape@))
                && shape@ == input@,
            Err(e) => feed_forward_shape(config@, dims(input@)) is None && e == last_dim_fault(
                LayerKind::FeedForward,
                config@.hidden_size,
                input@,
            ),
        },
{
    match check_last_dim(LayerKind::FeedForward, config.hidden_size(), input) {
        Err(e) => Err(e),
        Ok(()) => Ok(copy_shape(input)),
    }
}

/// The shape that a block returns for `input`: the same shape, provided `input` is a token
/// sequence. The error is that of the sublayer that meets the bad shape first.
pub fn block_output_shape(config: &AIMv2Config, input: &Vec<u64>) -> (out: Result<
    Vec<u64>,
    ShapeError,
>)
    ensures
        match out {
            Ok(shape) => block_shape(config@, dims(input@)) == Some(dims(shape@)) && shape@
                == input@,
            Err(e) => block_shape(config@, dims(input@)) is None && e == block_fault(
                config@,
                input@,
            ),
        },
{
    match check_last_dim(LayerKind::Norm, config.hidden_size(), input) {
        Err(e) => Err(e),
        Ok(()) => attention_output_shape(config, input),
    }
}

/// The shape that the trunk returns for `input`: the same shape, provided every layer of
/// the trunk accepts it.
pub fn trunk_output_shape(config: &AIMv2Config, input: &Vec<u64>) -> (out: Result<
    Vec<u64>,
    ShapeError,
>)
    ensures
        match out {
            Ok(shape) => trunk_shape(
                config@,
                config@.num_hidden_layers as nat,
                dims(input@),
            ) == Some(dims(shape@)) && shape@ == input@,
            Err(e) => trunk_shape(config@, config@.num_hidden_layers as nat, dims(input@))
                is None && e == trunk_fault(
                config@,
                config@.num_hidden_layers as nat,
                input@,
            ),
        },
{
    if config.num_hidden_layers() == 0 {
        norm_output_shape(config, input)
    } else {
        block_output_shape(config, input)
    }
}

/// The shape that the preprocessor returns for an image batch: `[batch, num_patches, hidden]`
/// for `[batch, channels, image_size, image_size]`, and an error for anything else.
pub fn preprocessor_output_shape(config: &AIMv2Config, input: &Vec<u64>) -> (out: Result<
    Vec<u64>,
    ShapeError,
>)
    ensures
        match out {
            Ok(shape) => preprocessor_shape(config@, dims(input@)) == Some(dims(shape@))
                && shape@ == seq![
                input@[0],
                num_patches_of(config@) as u64,
                config@.hidden_size as u64,
            ],
            Err(e) => preprocessor_shape(config@, dims(input@)) is None && e == (ShapeError {
                layer: LayerKind::Preprocessor,
                fault: preprocessor_fault(config@, input@),
            }),
        },
{
    proof {
        use_type_invariant(config);
        lemma_valid_tiles(config@);
    }
    let layer = LayerKind::Preprocessor;
    let rank: usize = input.len();
    if rank != 4 {
        return Err(ShapeError { layer, fault: ShapeFault::Rank { expected: 4, actual: rank } });
    }
    let channels: u64 = config.num_channels() as u64;
    if input[1] != channels {
        return Err(
            ShapeError { layer, fault: ShapeFault::Channels { expected: channels, actual: input[1] } },
        );
    }
    if input[2] != input[3] {
        return Err(
            ShapeError {
                layer,
                fault: ShapeFault::NonSquare { height: input[2], width: input[3] },
            },
        );
    }
    let patch: u64 = config.patch_size() as u64;
    if input[2] % patch != 0 {
        return Err(
            ShapeError { layer, fault: ShapeFault::NotDivisible { size: input[2], patch_size: patch } },
        );
    }
    let side: u64 = config.image_size() as u64;
    if input[2] != side {
        return Err(
            ShapeError { layer, fault: ShapeFault::ImageSize { expected: side, actual: input[2] } },
        );
    }
    let mut shape: Vec<u64> = Vec::new();
    shape.push(input[0]);
    shape.push(config.num_patches());
    shape.push(config.hidden_size() as u64);
    proof {
        assert(dims(shape@) =~= token_shape(
            config@,
            dims(input@)[0],
            num_patches_of(config@),
        ));
    }
    Ok(shape)
}

/// The shape that the model returns for an image batch: that of the preprocessor, which the
/// trunk keeps.
pub fn model_output_shape(config: &AIMv2Config, input: &Vec<u64>) -> (out: Result<
    Vec<u64>,
    ShapeError,
>)
    ensures
        match out {
            Ok(shape) => model_shape(config@, dims(input@)) == Some(dims(shape@)) && shape@
                == seq![
                input@[0],
                num_patches_of(config@) as u64,
                config@.hidden_size as u64,
            ],
            Err(e) => model_shape(config@, dims(input@)) is None && e == (ShapeError {
                layer: LayerKind::Preprocessor,
                fault: preprocessor_fault(config@, input@),
            }),
        },
{
    let tokens = preprocessor_output_shape(config, input)?;
    proof {
        use_type_invariant(config);
        lemma_valid_tiles(config@);
        assert(dims(tokens@) =~= token_shape(config@, dims(input@)[0], num_patches_of(config@)));
    }
    trunk_output_shape(config, &tokens)
}

} // verus!

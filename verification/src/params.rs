//! The learned parameters of the model: which there are, what each is called in the
//! parameter store, and which shape each must have.

use vstd::prelude::*;
use crate::config::{num_patches_of, AIMv2Config, ConfigView};
use crate::shape::{dims, in_features, out_features};
use crate::term::{LinearId, NormId};

verus! {

/// A learned parameter of the model.
#[derive(Clone, Copy, Debug, PartialEq, Eq, Structural)]
pub enum ParamId {
    /// The weight matrix of a projection, `[out_features, in_features]`.
    Weight(LinearId),
    /// The bias vector of a projection, `[out_features]`.
    Bias(LinearId),
    /// The per-channel scale of a norm, `[hidden]`.
    Scale(NormId),
    /// The positional embedding table, `[num_patches, hidden]`.
    PositionEmbedding,
}

/// The character of a decimal digit.
pub open spec fn digit_char(d: nat) -> char {
    if d == 0 {
        '0'
    } else if d == 1 {
        '1'
    } else if d == 2 {
        '2'
    } else if d == 3 {
        '3'
    } else if d == 4 {
        '4'
    } else if d == 5 {
        '5'
    } else if d == 6 {
        '6'
    } else if d == 7 {
        '7'
    } else if d == 8 {
        '8'
    } else {
        '9'
    }
}

/// The decimal numeral of `n`, without leading zeros.
pub open spec fn decimal(n: nat) -> Seq<char>
    decreases n,
{
    if n < 10 {
        seq![digit_char(n)]
    } else {
        decimal(n / 10).push(digit_char(n % 10))
    }
}

/// The path of a block in the parameter store.
pub open spec fn block_path(block: u32) -> Seq<char> {
    "trunk.blocks."@ + decimal(block as nat)
}

/// The path of a projection in the parameter store.
pub open spec fn linear_path(l: LinearId) -> Seq<char> {
    match l {
        LinearId::PatchProjection => "preprocessor.patchifier.proj"@,
        LinearId::Query(b) => block_path(b) + ".attn.q_proj"@,
        LinearId::Key(b) => block_path(b) + ".attn.k_proj"@,
        LinearId::Value(b) => block_path(b) + ".attn.v_proj"@,
        LinearId::Output(b) => block_path(b) + ".attn.out_proj"@,
        LinearId::Gate(b) => block_path(b) + ".mlp.fc1"@,
        LinearId::Up(b) => block_path(b) + ".mlp.fc3"@,
        LinearId::Down(b) => block_path(b) + ".mlp.fc2"@,
    }
}

/// The path of a norm in the parameter store.
pub open spec fn norm_path(n: NormId) -> Seq<char> {
    match n {
        NormId::First(b) => block_path(b) + ".norm_1"@,
        NormId::Second(b) => block_path(b) + ".norm_2"@,
        NormId::PostTrunk => "trunk.post_trunk_norm"@,
    }
}

/// The dotted name under which the parameter store holds a parameter.
pub open spec fn name_of(id: ParamId) -> Seq<char> {
    match id {
        ParamId::Weight(l) => linear_path(l) + ".weight"@,
        ParamId::Bias(l) => linear_path(l) + ".bias"@,
        ParamId::Scale(n) => norm_path(n) + ".weight"@,
        ParamId::PositionEmbedding => "preprocessor.pos_embed"@,
    }
}

/// The numeral of one decimal digit.
fn digit_str(d: u32) -> (s: &'static str)
    requires
        d < 10,
    ensures
        s@ == seq![digit_char(d as nat)],
{
    proof {
        reveal_strlit("0");
        reveal_strlit("1");
        reveal_strlit("2");
        reveal_strlit("3");
        reveal_strlit("4");
        reveal_strlit("5");
        reveal_strlit("6");
        reveal_strlit("7");
        reveal_strlit("8");
        reveal_strlit("9");
    }
    let s = if d == 0 {
        "0"
    } else if d == 1 {
        "1"
    } else if d == 2 {
        "2"
    } else if d == 3 {
        "3"
    } else if d == 4 {
        "4"
    } else if d == 5 {
        "5"
    } else if d == 6 {
        "6"
    } else if d == 7 {
        "7"
    } else if d == 8 {
        "8"
    } else {
        "9"
    };
    proof {
        assert(s@ =~= seq![digit_char(d as nat)]);
    }
    s
}

/// Appends the decimal numeral of `n` to `out`.
fn append_decimal(out: &mut String, n: u32)
    ensures
        final(out)@ == old(out)@ + decimal(n as nat),
    decreases n,
{
    if n >= 10 {
        append_decimal(out, n / 10);
    }
    out.append(digit_str(n % 10));
    proof {
        assert(out@ =~= old(out)@ + decimal(n as nat));
    }
}

/// The path of a block, as a string.
fn block_path_string(block: u32) -> (path: String)
    ensures
        path@ == block_path(block),
{
    let mut path = String::from_str("trunk.blocks.");
    append_decimal(&mut path, block);
    path
}

/// The path of a projection, as a string.
fn linear_path_string(l: LinearId) -> (path: String)
    ensures
        path@ == linear_path(l),
{
    match l {
        LinearId::PatchProjection => String::from_str("preprocessor.patchifier.proj"),
        LinearId::Query(b) => block_path_string(b).concat(".attn.q_proj"),
        LinearId::Key(b) => block_path_string(b).concat(".attn.k_proj"),
        LinearId::Value(b) => block_path_string(b).concat(".attn.v_proj"),
        LinearId::Output(b) => block_path_string(b).concat(".attn.out_proj"),
        LinearId::Gate(b) => block_path_string(b).concat(".mlp.fc1"),
        LinearId::Up(b) => block_path_string(b).concat(".mlp.fc3"),
        LinearId::Down(b) => block_path_string(b).concat(".mlp.fc2"),
    }
}

/// The path of a norm, as a string.
fn norm_path_string(n: NormId) -> (path: String)
    ensures
        path@ == norm_path(n),
{
    match n {
        NormId::First(b) => block_path_string(b).concat(".norm_1"),
        NormId::Second(b) => block_path_string(b).concat(".norm_2"),
        NormId::PostTrunk => String::from_str("trunk.post_trunk_norm"),
    }
}

/// The dotted name under which the parameter store holds a parameter.
pub fn param_name(id: ParamId) -> (name: String)
    ensures
        name@ == name_of(id),
{
    match id {
        ParamId::Weight(l) => linear_path_string(l).concat(".weight"),
        ParamId::Bias(l) => linear_path_string(l).concat(".bias"),
        ParamId::Scale(n) => norm_path_string(n).concat(".weight"),
        ParamId::PositionEmbedding => String::from_str("preprocessor.pos_embed"),
    }
}

/// Whether a projection carries a bias: the query, key and value projections follow one
/// switch of the configuration, every other projection the other.
pub open spec fn has_bias(m: ConfigView, l: LinearId) -> bool {
    match l {
        LinearId::Query(_) => m.qkv_bias,
        LinearId::Key(_) => m.qkv_bias,
        LinearId::Value(_) => m.qkv_bias,
        _ => m.use_bias,
    }
}

/// The shape that a parameter must have in the store.
pub open spec fn param_shape(m: ConfigView, id: ParamId) -> Seq<int> {
    match id {
        ParamId::Weight(l) => seq![out_features(m, l), in_features(m, l)],
        ParamId::Bias(l) => seq![out_features(m, l)],
        ParamId::Scale(_) => seq![m.hidden_size],
        ParamId::PositionEmbedding => seq![num_patches_of(m), m.hidden_size],
    }
}

/// The parameters of a projection: its weight, and its bias where it carries one.
pub open spec fn linear_params(m: ConfigView, l: LinearId) -> Seq<ParamId> {
    if has_bias(m, l) {
        seq![ParamId::Weight(l), ParamId::Bias(l)]
    } else {
        seq![ParamId::Weight(l)]
    }
}

/// The parameters of the preprocessor.
pub open spec fn preprocessor_params(m: ConfigView) -> Seq<ParamId> {
    linear_params(m, LinearId::PatchProjection) + seq![ParamId::PositionEmbedding]
}

/// The parameters of the attention half of a block, the norm in front of it included.
pub open spec fn attention_params(m: ConfigView, block: u32) -> Seq<ParamId> {
    seq![ParamId::Scale(NormId::First(block))] + linear_params(m, LinearId::Query(block))
        + linear_params(m, LinearId::Key(block)) + linear_params(m, LinearId::Value(block))
        + linear_params(m, LinearId::Output(block))
}

/// The parameters of the feed-forward half of a block, the norm in front of it included.
pub open spec fn feed_forward_params(m: ConfigView, block: u32) -> Seq<ParamId> {
    seq![ParamId::Scale(NormId::Second(block))] + linear_params(m, LinearId::Gate(block))
        + linear_params(m, LinearId::Up(block)) + linear_params(m, LinearId::Down(block))
}

/// The parameters of a block.
pub open spec fn block_params(m: ConfigView, block: u32) -> Seq<ParamId> {
    attention_params(m, block) + feed_forward_params(m, block)
}

/// The parameters of the first `n` blocks, block by block.
pub open spec fn blocks_params(m: ConfigView, n: nat) -> Seq<ParamId>
    decreases n,
{
    if n == 0 {
        Seq::empty()
    } else {
        blocks_params(m, (n - 1) as nat) + block_params(m, (n - 1) as u32)
    }
}

/// Every parameter of the model, in the order in which the layers are built.
pub open spec fn model_params(m: ConfigView) -> Seq<ParamId> {
    preprocessor_params(m) + blocks_params(m, m.num_hidden_layers as nat) + seq![
        ParamId::Scale(NormId::PostTrunk),
    ]
}

/// Whether a projection carries a bias.
pub fn linear_has_bias(config: &AIMv2Config, l: LinearId) -> (b: bool)
    ensures
        b == has_bias(config@, l),
{
    match l {
        LinearId::Query(_) => config.qkv_bias(),
        LinearId::Key(_) => config.qkv_bias(),
        LinearId::Value(_) => config.qkv_bias(),
        _ => config.use_bias(),
    }
}

/// Number of input features of a projection.
pub fn linear_in_features(config: &AIMv2Config, l: LinearId) -> (n: u64)
    ensures
        n == in_features(config@, l),
{
    match l {
        LinearId::PatchProjection => config.patch_dim(),
        LinearId::Down(_) => config.intermediate_size() as u64,
        _ => config.hidden_size() as u64,
    }
}

/// Number of output features of a projection.
pub fn linear_out_features(config: &AIMv2Config, l: LinearId) -> (n: u64)
    ensures
        n == out_features(config@, l),
{
    match l {
        LinearId::Gate(_) => config.intermediate_size() as u64,
        LinearId::Up(_) => config.intermediate_size() as u64,
        _ => config.hidden_size() as u64,
    }
}

/// The shape that a parameter must have in the store.
pub fn expected_shape(config: &AIMv2Config, id: ParamId) -> (shape: Vec<u64>)
    ensures
        dims(shape@) == param_shape(config@, id),
{
    let mut shape: Vec<u64> = Vec::new();
    match id {
        ParamId::Weight(l) => {
            shape.push(linear_out_features(config, l));
            shape.push(linear_in_features(config, l));
        },
        ParamId::Bias(l) => {
            shape.push(linear_out_features(config, l));
        },
        ParamId::Scale(_) => {
            shape.push(config.hidden_size() as u64);
        },
        ParamId::PositionEmbedding => {
            shape.push(config.num_patches());
            shape.push(config.hidden_size() as u64);
        },
    }
    proof {
        assert(dims(shape@) =~= param_shape(config@, id));
    }
    shape
}

/// Appends the parameters of a projection to a list.
fn append_linear_params(list: &mut Vec<ParamId>, config: &AIMv2Config, l: LinearId)
    ensures
        final(list)@ == old(list)@ + linear_params(config@, l),
{
    list.push(ParamId::Weight(l));
    if linear_has_bias(config, l) {
        list.push(ParamId::Bias(l));
    }
    proof {
        assert(list@ =~= old(list)@ + linear_params(config@, l));
    }
}

/// Appends the parameters of a block to a list.
fn append_block_params(list: &mut Vec<ParamId>, config: &AIMv2Config, block: u32)
    ensures
        final(list)@ == old(list)@ + block_params(config@, block),
{
    list.push(ParamId::Scale(NormId::First(block)));
    append_linear_params(list, config, LinearId::Query(block));
    append_linear_params(list, config, LinearId::Key(block));
    append_linear_params(list, config, LinearId::Value(block));
    append_linear_params(list, config, LinearId::Output(block));
    proof {
        assert(list@ =~= old(list)@ + attention_params(config@, block));
    }
    let ghost middle = list@;
    list.push(ParamId::Scale(NormId::Second(block)));
    append_linear_params(list, config, LinearId::Gate(block));
    append_linear_params(list, config, LinearId::Up(block));
    append_linear_params(list, config, LinearId::Down(block));
    proof {
        assert(list@ =~= middle + feed_forward_params(config@, block));
        assert(list@ =~= old(list)@ + block_params(config@, block));
    }
}

/// Every parameter of the model, in the order in which the layers are built.
pub fn expected_params(config: &AIMv2Config) -> (list: Vec<ParamId>)
    ensures
        list@ == model_params(config@),
{
    let mut list: Vec<ParamId> = Vec::new();
    append_linear_params(&mut list, config, LinearId::PatchProjection);
    list.push(ParamId::PositionEmbedding);
    proof {
        assert(list@ =~= preprocessor_params(config@));
    }
    let layers: u32 = config.num_hidden_layers();
    let mut block: u32 = 0;
    while block < layers
        invariant
            block <= layers,
            list@ == preprocessor_params(config@) + blocks_params(config@, block as nat),
        decreases layers - block,
    {
        append_block_params(&mut list, config, block);
        proof {
            assert(list@ =~= preprocessor_params(config@) + blocks_params(
                config@,
                (block + 1) as nat,
            ));
        }
        block += 1;
    }
    list.push(ParamId::Scale(NormId::PostTrunk));
    proof {
        assert(list@ =~= model_params(config@));
    }
    list
}

} // verus!

//! No two parameters share a name: a lookup by name never confuses one parameter with
//! another.

use vstd::prelude::*;
use crate::binding::{binds, lemma_lookup_is_first, lookup, StoreEntry};
use crate::config::ConfigView;
use crate::params::{block_path, decimal, digit_char, linear_path, name_of, norm_path, ParamId};
use crate::term::{LinearId, NormId};

verus! {

/// Equal sequences stay equal when a common ending is taken away.
proof fn lemma_cancel_ending(a: Seq<char>, b: Seq<char>, ending: Seq<char>)
    requires
        a + ending == b + ending,
    ensures
        a == b,
{
    assert(a.len() == (a + ending).len() - ending.len());
    assert(b.len() == (b + ending).len() - ending.len());
    assert forall|i: int| 0 <= i < a.len() implies a[i] == b[i] by {
        assert((a + ending)[i] == a[i]);
        assert((b + ending)[i] == b[i]);
    }
    assert(a =~= b);
}

/// Equal sequences stay equal when a common beginning is taken away.
proof fn lemma_cancel_beginning(beginning: Seq<char>, a: Seq<char>, b: Seq<char>)
    requires
        beginning + a == beginning + b,
    ensures
        a == b,
{
    assert(a.len() == (beginning + a).len() - beginning.len());
    assert(b.len() == (beginning + b).len() - beginning.len());
    assert forall|i: int| 0 <= i < a.len() implies a[i] == b[i] by {
        assert((beginning + a)[beginning.len() + i] == a[i]);
        assert((beginning + b)[beginning.len() + i] == b[i]);
    }
    assert(a =~= b);
}

/// A numeral has at least one digit.
proof fn lemma_decimal_nonempty(n: nat)
    ensures
        decimal(n).len() >= 1,
    decreases n,
{
    if n >= 10 {
        lemma_decimal_nonempty(n / 10);
    }
}

/// Different numbers have different numerals.
pub proof fn lemma_decimal_injective(a: nat, b: nat)
    requires
        decimal(a) == decimal(b),
    ensures
        a == b,
    decreases a,
{
    if a < 10 && b < 10 {
        assert(decimal(a)[0] == digit_char(a));
        assert(decimal(b)[0] == digit_char(b));
    } else if a < 10 {
        lemma_decimal_nonempty(b / 10);
    } else if b < 10 {
        lemma_decimal_nonempty(a / 10);
    } else {
        let front_a = decimal(a / 10);
        let front_b = decimal(b / 10);
        assert(front_a.push(digit_char(a % 10)).last() == digit_char(a % 10));
        assert(front_b.push(digit_char(b % 10)).last() == digit_char(b % 10));
        assert(front_a.push(digit_char(a % 10)).drop_last() =~= front_a);
        assert(front_b.push(digit_char(b % 10)).drop_last() =~= front_b);
        lemma_decimal_injective(a / 10, b / 10);
    }
}

/// Different blocks have different paths.
proof fn lemma_block_path_injective(a: u32, b: u32)
    requires
        block_path(a) == block_path(b),
    ensures
        a == b,
{
    lemma_cancel_beginning("trunk.blocks."@, decimal(a as nat), decimal(b as nat));
    lemma_decimal_injective(a as nat, b as nat);
}

/// The character `back` places before the end of a sequence; the last one is at 1.
pub open spec fn from_end(s: Seq<char>, back: int) -> char
    recommends
        1 <= back <= s.len(),
{
    s[s.len() - back]
}

/// The two characters by which the path of a projection is told from every other path.
pub open spec fn linear_mark(l: LinearId) -> (char, char) {
    match l {
        LinearId::PatchProjection => ('r', 'j'),
        LinearId::Query(_) => ('q', 'j'),
        LinearId::Key(_) => ('k', 'j'),
        LinearId::Value(_) => ('v', 'j'),
        LinearId::Output(_) => ('t', 'j'),
        LinearId::Gate(_) => ('l', '1'),
        LinearId::Up(_) => ('l', '3'),
        LinearId::Down(_) => ('l', '2'),
    }
}

/// The two characters by which the path of a norm is told from every other path.
pub open spec fn norm_mark(n: NormId) -> (char, char) {
    match n {
        NormId::First(_) => ('n', '1'),
        NormId::Second(_) => ('n', '2'),
        NormId::PostTrunk => ('k', 'm'),
    }
}

/// The path of a projection carries its mark six places and one place before its end.
proof fn lemma_linear_mark(l: LinearId)
    ensures
        linear_path(l).len() >= 6,
        (from_end(linear_path(l), 6), from_end(linear_path(l), 1)) == linear_mark(l),
{
    reveal_strlit("preprocessor.patchifier.proj");
    reveal_strlit(".attn.q_proj");
    reveal_strlit(".attn.k_proj");
    reveal_strlit(".attn.v_proj");
    reveal_strlit(".attn.out_proj");
    reveal_strlit(".mlp.fc1");
    reveal_strlit(".mlp.fc3");
    reveal_strlit(".mlp.fc2");
}

/// The path of a norm carries its mark six places and one place before its end.
proof fn lemma_norm_mark(n: NormId)
    ensures
        norm_path(n).len() >= 6,
        (from_end(norm_path(n), 6), from_end(norm_path(n), 1)) == norm_mark(n),
{
    reveal_strlit(".norm_1");
    reveal_strlit(".norm_2");
    reveal_strlit("trunk.post_trunk_norm");
}

/// Different projections have different paths.
pub proof fn lemma_linear_path_injective(a: LinearId, b: LinearId)
    requires
        linear_path(a) == linear_path(b),
    ensures
        a == b,
{
    lemma_linear_mark(a);
    lemma_linear_mark(b);
    match (a, b) {
        (LinearId::Query(x), LinearId::Query(y)) => {
            lemma_cancel_ending(block_path(x), block_path(y), ".attn.q_proj"@);
            lemma_block_path_injective(x, y);
        },
        (LinearId::Key(x), LinearId::Key(y)) => {
            lemma_cancel_ending(block_path(x), block_path(y), ".attn.k_proj"@);
            lemma_block_path_injective(x, y);
        },
        (LinearId::Value(x), LinearId::Value(y)) => {
            lemma_cancel_ending(block_path(x), block_path(y), ".attn.v_proj"@);
            lemma_block_path_injective(x, y);
        },
        (LinearId::Output(x), LinearId::Output(y)) => {
            lemma_cancel_ending(block_path(x), block_path(y), ".attn.out_proj"@);
            lemma_block_path_injective(x, y);
        },
        (LinearId::Gate(x), LinearId::Gate(y)) => {
            lemma_cancel_ending(block_path(x), block_path(y), ".mlp.fc1"@);
            lemma_block_path_injective(x, y);
        },
        (LinearId::Up(x), LinearId::Up(y)) => {
            lemma_cancel_ending(block_path(x), block_path(y), ".mlp.fc3"@);
            lemma_block_path_injective(x, y);
        },
        (LinearId::Down(x), LinearId::Down(y)) => {
            lemma_cancel_ending(block_path(x), block_path(y), ".mlp.fc2"@);
            lemma_block_path_injective(x, y);
        },
        _ => {},
    }
}

/// Different norms have different paths.
pub proof fn lemma_norm_path_injective(a: NormId, b: NormId)
    requires
        norm_path(a) == norm_path(b),
    ensures
        a == b,
{
    lemma_norm_mark(a);
    lemma_norm_mark(b);
    match (a, b) {
        (NormId::First(x), NormId::First(y)) => {
            lemma_cancel_ending(block_path(x), block_path(y), ".norm_1"@);
            lemma_block_path_injective(x, y);
        },
        (NormId::Second(x), NormId::Second(y)) => {
            lemma_cancel_ending(block_path(x), block_path(y), ".norm_2"@);
            lemma_block_path_injective(x, y);
        },
        _ => {},
    }
}

/// The last character of a parameter's name, which tells weights and scales, biases, and the
/// positional embedding apart.
pub open spec fn last_mark(id: ParamId) -> char {
    match id {
        ParamId::Weight(_) => 't',
        ParamId::Bias(_) => 's',
        ParamId::Scale(_) => 't',
        ParamId::PositionEmbedding => 'd',
    }
}

/// A name ends in the mark of its parameter.
proof fn lemma_last_mark(id: ParamId)
    ensures
        name_of(id).len() >= 1,
        from_end(name_of(id), 1) == last_mark(id),
{
    reveal_strlit(".weight");
    reveal_strlit(".bias");
    reveal_strlit("preprocessor.pos_embed");
    let weight = ".weight"@;
    let bias = ".bias"@;
    match id {
        ParamId::Weight(l) => {
            assert((linear_path(l) + weight)[linear_path(l).len() as int + 6] == weight[6]);
        },
        ParamId::Bias(l) => {
            assert((linear_path(l) + bias)[linear_path(l).len() as int + 4] == bias[4]);
        },
        ParamId::Scale(n) => {
            assert((norm_path(n) + weight)[norm_path(n).len() as int + 6] == weight[6]);
        },
        ParamId::PositionEmbedding => {},
    }
}

/// No two parameters share a name.
pub proof fn lemma_names_are_distinct(a: ParamId, b: ParamId)
    requires
        name_of(a) == name_of(b),
    ensures
        a == b,
{
    let weight = ".weight"@;
    let bias = ".bias"@;
    lemma_last_mark(a);
    lemma_last_mark(b);
    match (a, b) {
        (ParamId::Weight(x), ParamId::Weight(y)) => {
            lemma_cancel_ending(linear_path(x), linear_path(y), weight);
            lemma_linear_path_injective(x, y);
        },
        (ParamId::Bias(x), ParamId::Bias(y)) => {
            lemma_cancel_ending(linear_path(x), linear_path(y), bias);
            lemma_linear_path_injective(x, y);
        },
        (ParamId::Scale(x), ParamId::Scale(y)) => {
            lemma_cancel_ending(norm_path(x), norm_path(y), weight);
            lemma_norm_path_injective(x, y);
        },
        (ParamId::Weight(x), ParamId::Scale(y)) => {
            lemma_cancel_ending(linear_path(x), norm_path(y), weight);
            lemma_linear_mark(x);
            lemma_norm_mark(y);
        },
        (ParamId::Scale(x), ParamId::Weight(y)) => {
            lemma_cancel_ending(norm_path(x), linear_path(y), weight);
            lemma_norm_mark(x);
            lemma_linear_mark(y);
        },
        _ => {},
    }
}

/// Different parameters are bound to different entries of the store: no tensor is used for
/// two parameters.
pub proof fn lemma_distinct_parameters_distinct_slots(
    m: ConfigView,
    store: Seq<StoreEntry>,
    params: Seq<ParamId>,
    slots: Seq<usize>,
    i: int,
    j: int,
)
    requires
        binds(m, store, params, slots),
        0 <= i < params.len(),
        0 <= j < params.len(),
        params[i] != params[j],
    ensures
        slots[i] != slots[j],
{
    lemma_lookup_is_first(store, name_of(params[i]));
    lemma_lookup_is_first(store, name_of(params[j]));
    assert(lookup(store, name_of(params[i])) == Some(slots[i] as int));
    assert(lookup(store, name_of(params[j])) == Some(slots[j] as int));
    if slots[i] == slots[j] {
        lemma_names_are_distinct(params[i], params[j]);
    }
}

} // verus!

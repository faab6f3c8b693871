use aimv2_rs::binding::StoreEntry;
use aimv2_rs::config::AIMv2Config;
use aimv2_rs::model::AIMv2Model;
use aimv2_rs::params::{expected_params, expected_shape, param_name, ParamId};
use aimv2_rs::plan::{model_plan, BinaryKind, Op, UnaryKind, LEFT, RIGHT, STREAM, WORK};
use aimv2_rs::reads::op_parameters;
use aimv2_rs::term::{LinearId, NormId};

fn config(layers: u32, qkv_bias: bool, use_bias: bool) -> AIMv2Config {
    AIMv2Config::new(12, 3, layers, 20, 4, 8, 2, 0, qkv_bias, use_bias).unwrap()
}

fn store_of(c: &AIMv2Config) -> Vec<StoreEntry> {
    expected_params(c)
        .into_iter()
        .map(|id| StoreEntry { name: param_name(id), shape: expected_shape(c, id) })
        .collect()
}

#[test]
fn what_each_kind_of_instruction_reads() {
    let c = config(1, true, false);
    let un = |kind| Op::Unary { kind, src: WORK, dst: WORK };
    assert_eq!(
        op_parameters(&c, un(UnaryKind::Linear(LinearId::Query(0)))),
        vec![ParamId::Weight(LinearId::Query(0)), ParamId::Bias(LinearId::Query(0))]
    );
    assert_eq!(
        op_parameters(&c, un(UnaryKind::Linear(LinearId::Down(0)))),
        vec![ParamId::Weight(LinearId::Down(0))]
    );
    assert_eq!(
        op_parameters(&c, un(UnaryKind::RmsNorm(NormId::Second(0)))),
        vec![ParamId::Scale(NormId::Second(0))]
    );
    assert_eq!(op_parameters(&c, un(UnaryKind::AddPositions)), vec![ParamId::PositionEmbedding]);
    for kind in [
        UnaryKind::Patches,
        UnaryKind::SplitHeads,
        UnaryKind::MergeHeads,
        UnaryKind::Scale,
        UnaryKind::Softmax,
        UnaryKind::Silu,
    ] {
        assert_eq!(op_parameters(&c, un(kind)), vec![]);
    }
    for kind in [BinaryKind::Scores, BinaryKind::Weighted, BinaryKind::Mul, BinaryKind::Add] {
        let op = Op::Binary { kind, lhs: LEFT, rhs: RIGHT, dst: STREAM };
        assert_eq!(op_parameters(&c, op), vec![]);
    }
}

#[test]
fn the_program_reads_every_parameter_of_the_table_once() {
    for (layers, qkv_bias, use_bias) in
        [(0u32, false, false), (1, false, false), (3, true, false), (2, false, true), (2, true, true)]
    {
        let c = config(layers, qkv_bias, use_bias);
        let mut read: Vec<ParamId> = Vec::new();
        for op in model_plan(&c) {
            read.extend(op_parameters(&c, op));
        }
        assert_eq!(read, expected_params(&c));
    }
}

#[test]
fn every_instruction_of_the_program_finds_its_slots() {
    let c = config(3, true, true);
    let mut store = store_of(&c);
    store.reverse();
    let model = AIMv2Model::new(&c, &store).unwrap();
    for op in model.plan() {
        let slots = model.op_slots(*op).unwrap();
        let reads = op_parameters(&c, *op);
        assert_eq!(slots.len(), reads.len());
        for (slot, id) in slots.iter().zip(&reads) {
            assert_eq!(store[*slot].name, param_name(*id));
            assert_eq!(model.slot_of(*id), Some(*slot));
        }
    }
}

#[test]
fn an_instruction_of_another_model_finds_nothing() {
    let c = config(2, false, false);
    let model = AIMv2Model::new(&c, &store_of(&c)).unwrap();
    let foreign = Op::Unary { kind: UnaryKind::Linear(LinearId::Query(2)), src: WORK, dst: LEFT };
    assert_eq!(model.op_slots(foreign), None);
    let foreign = Op::Unary { kind: UnaryKind::RmsNorm(NormId::First(5)), src: STREAM, dst: WORK };
    assert_eq!(model.op_slots(foreign), None);
    let own = Op::Unary { kind: UnaryKind::Linear(LinearId::Query(1)), src: WORK, dst: LEFT };
    assert_eq!(model.op_slots(own), model.slot_of(ParamId::Weight(LinearId::Query(1))).map(|s| vec![s]));
    let free = Op::Binary { kind: BinaryKind::Add, lhs: STREAM, rhs: WORK, dst: STREAM };
    assert_eq!(model.op_slots(free), Some(vec![]));
}

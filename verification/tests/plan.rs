use aimv2_rs::config::AIMv2Config;
use aimv2_rs::plan::{
    block_plan, model_plan, preprocessor_plan, trunk_plan, BinaryKind, Op, UnaryKind, EXTRA, LEFT,
    RIGHT, SLOTS, STREAM, WORK,
};
use aimv2_rs::term::{LinearId, NormId};

fn with_layers(layers: u32) -> AIMv2Config {
    AIMv2Config::new(12, 3, layers, 20, 4, 8, 2, 0, false, false).unwrap()
}

fn un(kind: UnaryKind, src: usize, dst: usize) -> Op {
    Op::Unary { kind, src, dst }
}

fn bin(kind: BinaryKind, lhs: usize, rhs: usize, dst: usize) -> Op {
    Op::Binary { kind, lhs, rhs, dst }
}

/// A symbolic run of a program: every register holds the expression it was computed by.
fn run_symbolically(ops: &[Op]) -> Vec<String> {
    let mut regs: Vec<String> = vec!["image".to_string(); SLOTS];
    for op in ops {
        match *op {
            Op::Unary { kind, src, dst } => {
                regs[dst] = format!("{:?}({})", kind, regs[src]);
            }
            Op::Binary { kind, lhs, rhs, dst } => {
                regs[dst] = format!("{:?}({}, {})", kind, regs[lhs], regs[rhs]);
            }
        }
    }
    regs
}

#[test]
fn registers_are_distinct() {
    let mut all = vec![STREAM, WORK, LEFT, RIGHT, EXTRA];
    all.sort();
    all.dedup();
    assert_eq!(all.len(), SLOTS);
    assert!(all.iter().all(|r| *r < SLOTS));
}

#[test]
fn preprocessor_program() {
    assert_eq!(
        preprocessor_plan(),
        vec![
            un(UnaryKind::Patches, STREAM, STREAM),
            un(UnaryKind::Linear(LinearId::PatchProjection), STREAM, STREAM),
            un(UnaryKind::AddPositions, STREAM, STREAM),
        ]
    );
}

#[test]
fn block_program() {
    let b = 3u32;
    assert_eq!(
        block_plan(b),
        vec![
            un(UnaryKind::RmsNorm(NormId::First(b)), STREAM, WORK),
            un(UnaryKind::Linear(LinearId::Query(b)), WORK, LEFT),
            un(UnaryKind::SplitHeads, LEFT, LEFT),
            un(UnaryKind::Linear(LinearId::Key(b)), WORK, RIGHT),
            un(UnaryKind::SplitHeads, RIGHT, RIGHT),
            un(UnaryKind::Linear(LinearId::Value(b)), WORK, EXTRA),
            un(UnaryKind::SplitHeads, EXTRA, EXTRA),
            bin(BinaryKind::Scores, LEFT, RIGHT, LEFT),
            un(UnaryKind::Scale, LEFT, LEFT),
            un(UnaryKind::Softmax, LEFT, LEFT),
            bin(BinaryKind::Weighted, LEFT, EXTRA, WORK),
            un(UnaryKind::MergeHeads, WORK, WORK),
            un(UnaryKind::Linear(LinearId::Output(b)), WORK, WORK),
            bin(BinaryKind::Add, STREAM, WORK, STREAM),
            un(UnaryKind::RmsNorm(NormId::Second(b)), STREAM, WORK),
            un(UnaryKind::Linear(LinearId::Gate(b)), WORK, LEFT),
            un(UnaryKind::Silu, LEFT, LEFT),
            un(UnaryKind::Linear(LinearId::Up(b)), WORK, RIGHT),
            bin(BinaryKind::Mul, LEFT, RIGHT, WORK),
            un(UnaryKind::Linear(LinearId::Down(b)), WORK, WORK),
            bin(BinaryKind::Add, STREAM, WORK, STREAM),
        ]
    );
}

#[test]
fn scores_are_scaled_before_softmax() {
    let ops = block_plan(0);
    let scores = ops.iter().position(|op| matches!(op, Op::Binary { kind: BinaryKind::Scores, .. }));
    let scale = ops.iter().position(|op| matches!(op, Op::Unary { kind: UnaryKind::Scale, .. }));
    let softmax = ops.iter().position(|op| matches!(op, Op::Unary { kind: UnaryKind::Softmax, .. }));
    assert!(scores.unwrap() < scale.unwrap());
    assert!(scale.unwrap() < softmax.unwrap());
}

#[test]
fn block_computes_two_residual_sublayers() {
    let regs = run_symbolically(&block_plan(0));
    let x = "image";
    let n1 = format!("RmsNorm(First(0))({x})");
    let heads = |l: &str| format!("SplitHeads(Linear({l}(0))({n1}))");
    let weights = format!("Softmax(Scale(Scores({}, {})))", heads("Query"), heads("Key"));
    let attn = format!("Linear(Output(0))(MergeHeads(Weighted({weights}, {})))", heads("Value"));
    let h = format!("Add({x}, {attn})");
    let n2 = format!("RmsNorm(Second(0))({h})");
    let ffn = format!("Linear(Down(0))(Mul(Silu(Linear(Gate(0))({n2})), Linear(Up(0))({n2})))");
    assert_eq!(regs[STREAM], format!("Add({h}, {ffn})"));
}

#[test]
fn trunk_without_blocks_is_one_norm() {
    let flat = with_layers(0);
    assert_eq!(trunk_plan(&flat), vec![un(UnaryKind::RmsNorm(NormId::PostTrunk), STREAM, STREAM)]);
    let mut expected = preprocessor_plan();
    expected.push(un(UnaryKind::RmsNorm(NormId::PostTrunk), STREAM, STREAM));
    assert_eq!(model_plan(&flat), expected);
    let regs = run_symbolically(&model_plan(&flat));
    assert_eq!(
        regs[STREAM],
        "RmsNorm(PostTrunk)(AddPositions(Linear(PatchProjection)(Patches(image))))"
    );
}

#[test]
fn trunk_runs_the_blocks_in_index_order() {
    let c = with_layers(3);
    let mut expected: Vec<Op> = Vec::new();
    for b in 0..3u32 {
        expected.extend(block_plan(b));
    }
    expected.push(un(UnaryKind::RmsNorm(NormId::PostTrunk), STREAM, STREAM));
    assert_eq!(trunk_plan(&c), expected);
}

#[test]
fn model_is_preprocessor_then_trunk() {
    let c = with_layers(2);
    let mut expected = preprocessor_plan();
    expected.extend(trunk_plan(&c));
    assert_eq!(model_plan(&c), expected);
    assert_eq!(model_plan(&c).len(), 3 + 2 * 21 + 1);
    let large = AIMv2Config::aimv2_large_patch14();
    assert_eq!(model_plan(&large).len(), 3 + 24 * 21 + 1);
}

#[test]
fn the_closing_norm_runs_once_and_last() {
    let c = with_layers(4);
    let ops = model_plan(&c);
    let closing = un(UnaryKind::RmsNorm(NormId::PostTrunk), STREAM, STREAM);
    assert_eq!(ops.iter().filter(|op| **op == closing).count(), 1);
    assert_eq!(*ops.last().unwrap(), closing);
}

#[test]
fn every_register_of_a_program_exists() {
    let c = with_layers(2);
    for op in model_plan(&c) {
        match op {
            Op::Unary { src, dst, .. } => assert!(src < SLOTS && dst < SLOTS),
            Op::Binary { lhs, rhs, dst, .. } => assert!(lhs < SLOTS && rhs < SLOTS && dst < SLOTS),
        }
    }
}

use aimv2_rs::binding::StoreEntry;
use aimv2_rs::config::AIMv2Config;
use aimv2_rs::layers::{attention_output_shape, block_output_shape, model_output_shape};
use aimv2_rs::layout::{channel_head_of, head_channel_of, source_pixel_of, PatchCell};
use aimv2_rs::model::AIMv2Model;
use aimv2_rs::params::{expected_params, expected_shape, param_name, ParamId};
use aimv2_rs::plan::{
    block_plan, model_plan, preprocessor_plan, BinaryKind, Op, UnaryKind, LEFT, SLOTS, STREAM,
};
use aimv2_rs::reads::op_parameters;
use aimv2_rs::term::{LinearId, NormId};

const EPS_BITS: u64 = 0x3EE4_F8B5_88E3_68F1;

/// A dense tensor of 32-bit floats, row-major.
#[derive(Clone, Debug, PartialEq)]
struct Tensor {
    shape: Vec<usize>,
    data: Vec<f32>,
}

impl Tensor {
    fn filled(shape: &[usize], value: f32) -> Tensor {
        Tensor { shape: shape.to_vec(), data: vec![value; shape.iter().product()] }
    }

    /// Deterministic, non-uniform contents in about [-1, 1].
    fn varied(shape: &[usize], seed: u32) -> Tensor {
        let n: usize = shape.iter().product();
        let mut state = seed.wrapping_mul(2654435761).wrapping_add(12345);
        let data = (0..n)
            .map(|_| {
                state = state.wrapping_mul(1664525).wrapping_add(1013904223);
                ((state >> 8) as f32 / (1u32 << 24) as f32) * 2.0 - 1.0
            })
            .collect();
        Tensor { shape: shape.to_vec(), data }
    }

    fn last(&self) -> usize {
        *self.shape.last().unwrap()
    }

    fn rows(&self) -> usize {
        self.data.len() / self.last().max(1)
    }

    fn shape_u64(&self) -> Vec<u64> {
        self.shape.iter().map(|d| *d as u64).collect()
    }

    fn map(&self, f: impl Fn(f32) -> f32) -> Tensor {
        Tensor { shape: self.shape.clone(), data: self.data.iter().map(|x| f(*x)).collect() }
    }

    fn zip(&self, other: &Tensor, f: impl Fn(f32, f32) -> f32) -> Tensor {
        assert_eq!(self.shape, other.shape);
        let data = self.data.iter().zip(&other.data).map(|(a, b)| f(*a, *b)).collect();
        Tensor { shape: self.shape.clone(), data }
    }
}

fn patches(config: &AIMv2Config, x: &Tensor) -> Tensor {
    let (b, c, s) = (x.shape[0], x.shape[1], x.shape[2]);
    assert_eq!(x.shape, vec![b, c, s, s]);
    let n = config.num_patches() as usize;
    let d = config.patch_dim() as usize;
    let mut out = Tensor::filled(&[b, n, d], 0.0);
    for image in 0..b {
        for patch in 0..n {
            for offset in 0..d {
                let cell = PatchCell { patch: patch as u64, offset: offset as u64 };
                let px = source_pixel_of(config, cell).unwrap();
                let from = ((image * c + px.channel as usize) * s + px.row as usize) * s
                    + px.col as usize;
                out.data[(image * n + patch) * d + offset] = x.data[from];
            }
        }
    }
    out
}

fn linear(x: &Tensor, weight: &Tensor, bias: Option<&Tensor>) -> Tensor {
    let (outs, ins) = (weight.shape[0], weight.shape[1]);
    assert_eq!(x.last(), ins);
    let mut shape = x.shape.clone();
    *shape.last_mut().unwrap() = outs;
    let mut out = Tensor::filled(&shape, 0.0);
    for r in 0..x.rows() {
        for o in 0..outs {
            let mut acc = match bias {
                Some(b) => b.data[o],
                None => 0.0,
            };
            for i in 0..ins {
                acc += x.data[r * ins + i] * weight.data[o * ins + i];
            }
            out.data[r * outs + o] = acc;
        }
    }
    out
}

fn add_positions(x: &Tensor, table: &Tensor) -> Tensor {
    assert_eq!(x.shape[1..], table.shape[..]);
    let per_image = table.data.len();
    let mut out = x.clone();
    for (i, v) in out.data.iter_mut().enumerate() {
        *v += table.data[i % per_image];
    }
    out
}

fn rms_norm(x: &Tensor, scale: &Tensor, eps: f32) -> Tensor {
    let h = x.last();
    assert_eq!(scale.shape, vec![h]);
    let mut out = x.clone();
    for r in 0..x.rows() {
        let row = &x.data[r * h..(r + 1) * h];
        let mean_square = row.iter().map(|v| v * v).sum::<f32>() / h as f32;
        let inv = 1.0 / (mean_square + eps).sqrt();
        for c in 0..h {
            out.data[r * h + c] = row[c] * inv * scale.data[c];
        }
    }
    out
}

fn split_heads(config: &AIMv2Config, x: &Tensor) -> Tensor {
    let (b, s, h) = (x.shape[0], x.shape[1], x.shape[2]);
    let heads = config.num_attention_heads() as usize;
    let width = config.head_dim() as usize;
    let mut out = Tensor::filled(&[b, heads, s, width], 0.0);
    for i in 0..b {
        for head in 0..heads {
            for t in 0..s {
                for lane in 0..width {
                    let channel = head_channel_of(config, head as u32, lane as u32).unwrap();
                    out.data[((i * heads + head) * s + t) * width + lane] =
                        x.data[(i * s + t) * h + channel as usize];
                }
            }
        }
    }
    out
}

fn merge_heads(config: &AIMv2Config, x: &Tensor) -> Tensor {
    let (b, heads, s, width) = (x.shape[0], x.shape[1], x.shape[2], x.shape[3]);
    let h = config.hidden_size() as usize;
    let mut out = Tensor::filled(&[b, s, h], 0.0);
    for i in 0..b {
        for t in 0..s {
            for channel in 0..h {
                let (head, lane) = channel_head_of(config, channel as u32).unwrap();
                out.data[(i * s + t) * h + channel] =
                    x.data[((i * heads + head as usize) * s + t) * width + lane as usize];
            }
        }
    }
    out
}

/// `a · bᵀ` over the last two axes, for each leading index.
fn matmul_transposed(a: &Tensor, b: &Tensor) -> Tensor {
    let (n, d) = (a.shape[2], a.shape[3]);
    let m = b.shape[2];
    assert_eq!(a.shape[..2], b.shape[..2]);
    assert_eq!(b.shape[3], d);
    let groups = a.shape[0] * a.shape[1];
    let mut out = Tensor::filled(&[a.shape[0], a.shape[1], n, m], 0.0);
    for g in 0..groups {
        for i in 0..n {
            for j in 0..m {
                let mut acc = 0.0;
                for k in 0..d {
                    acc += a.data[(g * n + i) * d + k] * b.data[(g * m + j) * d + k];
                }
                out.data[(g * n + i) * m + j] = acc;
            }
        }
    }
    out
}

/// `a · b` over the last two axes, for each leading index.
fn matmul(a: &Tensor, b: &Tensor) -> Tensor {
    let (n, m) = (a.shape[2], a.shape[3]);
    let d = b.shape[3];
    assert_eq!(a.shape[..2], b.shape[..2]);
    assert_eq!(b.shape[2], m);
    let groups = a.shape[0] * a.shape[1];
    let mut out = Tensor::filled(&[a.shape[0], a.shape[1], n, d], 0.0);
    for g in 0..groups {
        for i in 0..n {
            for k in 0..d {
                let mut acc = 0.0;
                for j in 0..m {
                    acc += a.data[(g * n + i) * m + j] * b.data[(g * m + j) * d + k];
                }
                out.data[(g * n + i) * d + k] = acc;
            }
        }
    }
    out
}

fn softmax(x: &Tensor) -> Tensor {
    let w = x.last();
    let mut out = x.clone();
    for r in 0..x.rows() {
        let row = &x.data[r * w..(r + 1) * w];
        let max = row.iter().cloned().fold(f32::NEG_INFINITY, f32::max);
        let exps: Vec<f32> = row.iter().map(|v| (v - max).exp()).collect();
        let sum: f32 = exps.iter().sum();
        for c in 0..w {
            out.data[r * w + c] = exps[c] / sum;
        }
    }
    out
}

fn silu(v: f32) -> f32 {
    v / (1.0 + (-v).exp())
}

/// A set of named parameter tensors.
struct Weights {
    names: Vec<String>,
    tensors: Vec<Tensor>,
}

impl Weights {
    /// Every parameter of the model, each filled by `fill(id, shape)`.
    fn for_model(config: &AIMv2Config, fill: impl Fn(ParamId, &[usize]) -> Tensor) -> Weights {
        let mut w = Weights { names: Vec::new(), tensors: Vec::new() };
        for id in expected_params(config) {
            let shape: Vec<usize> =
                expected_shape(config, id).iter().map(|d| *d as usize).collect();
            w.names.push(param_name(id));
            w.tensors.push(fill(id, &shape));
        }
        w
    }

    fn get(&self, id: ParamId) -> &Tensor {
        let name = param_name(id);
        let at = self.names.iter().position(|n| *n == name).unwrap();
        &self.tensors[at]
    }

    fn entries(&self) -> Vec<StoreEntry> {
        self.names
            .iter()
            .zip(&self.tensors)
            .map(|(name, t)| StoreEntry { name: name.clone(), shape: t.shape_u64() })
            .collect()
    }
}

fn unary(config: &AIMv2Config, kind: UnaryKind, x: &Tensor, params: &[&Tensor]) -> Tensor {
    let eps = f64::from_bits(config.rms_norm_eps_bits()) as f32;
    match kind {
        UnaryKind::Patches => patches(config, x),
        UnaryKind::Linear(_) => linear(x, params[0], params.get(1).copied()),
        UnaryKind::AddPositions => add_positions(x, params[0]),
        UnaryKind::RmsNorm(_) => rms_norm(x, params[0], eps),
        UnaryKind::SplitHeads => split_heads(config, x),
        UnaryKind::MergeHeads => merge_heads(config, x),
        UnaryKind::Scale => {
            let by = (config.head_dim() as f32).sqrt();
            x.map(|v| v / by)
        }
        UnaryKind::Softmax => softmax(x),
        UnaryKind::Silu => x.map(silu),
    }
}

fn binary(kind: BinaryKind, a: &Tensor, b: &Tensor) -> Tensor {
    match kind {
        BinaryKind::Scores => matmul_transposed(a, b),
        BinaryKind::Weighted => matmul(a, b),
        BinaryKind::Mul => a.zip(b, |x, y| x * y),
        BinaryKind::Add => a.zip(b, |x, y| x + y),
    }
}

/// Runs a program on registers that all hold `start`, and returns the registers.
fn run(config: &AIMv2Config, weights: &Weights, ops: &[Op], start: &Tensor) -> Vec<Tensor> {
    let mut regs = vec![start.clone(); SLOTS];
    for op in ops {
        let reads = op_parameters(config, *op);
        let params: Vec<&Tensor> = reads.iter().map(|id| weights.get(*id)).collect();
        match *op {
            Op::Unary { kind, src, dst } => regs[dst] = unary(config, kind, &regs[src], &params),
            Op::Binary { kind, lhs, rhs, dst } => regs[dst] = binary(kind, &regs[lhs], &regs[rhs]),
        }
    }
    regs
}

/// Runs the program of a bound model, reading each parameter through the model's table.
fn infer(model: &AIMv2Model, tensors: &[Tensor], image: &Tensor) -> Tensor {
    let config = model.config();
    let mut regs = vec![image.clone(); SLOTS];
    for op in model.plan() {
        let slots = model.op_slots(*op).unwrap();
        let params: Vec<&Tensor> = slots.iter().map(|s| &tensors[*s]).collect();
        match *op {
            Op::Unary { kind, src, dst } => regs[dst] = unary(config, kind, &regs[src], &params),
            Op::Binary { kind, lhs, rhs, dst } => regs[dst] = binary(kind, &regs[lhs], &regs[rhs]),
        }
    }
    regs.swap_remove(STREAM)
}

/// The recipe written out layer by layer, without the program.
fn attention_by_hand(config: &AIMv2Config, w: &Weights, b: u32, x: &Tensor) -> Tensor {
    let project = |l: LinearId| {
        let bias = if aimv2_rs::params::linear_has_bias(config, l) {
            Some(w.get(ParamId::Bias(l)))
        } else {
            None
        };
        split_heads(config, &linear(x, w.get(ParamId::Weight(l)), bias))
    };
    let q = project(LinearId::Query(b));
    let k = project(LinearId::Key(b));
    let v = project(LinearId::Value(b));
    let by = (config.head_dim() as f32).sqrt();
    let weights = softmax(&matmul_transposed(&q, &k).map(|s| s / by));
    let mixed = merge_heads(config, &matmul(&weights, &v));
    linear(&mixed, w.get(ParamId::Weight(LinearId::Output(b))), None)
}

fn feed_forward_by_hand(w: &Weights, b: u32, x: &Tensor) -> Tensor {
    let gate = linear(x, w.get(ParamId::Weight(LinearId::Gate(b))), None).map(silu);
    let value = linear(x, w.get(ParamId::Weight(LinearId::Up(b))), None);
    linear(&gate.zip(&value, |g, v| g * v), w.get(ParamId::Weight(LinearId::Down(b))), None)
}

fn block_by_hand(config: &AIMv2Config, w: &Weights, b: u32, x: &Tensor) -> Tensor {
    let eps = f64::from_bits(config.rms_norm_eps_bits()) as f32;
    let n1 = rms_norm(x, w.get(ParamId::Scale(NormId::First(b))), eps);
    let h = x.zip(&attention_by_hand(config, w, b, &n1), |a, c| a + c);
    let n2 = rms_norm(&h, w.get(ParamId::Scale(NormId::Second(b))), eps);
    h.zip(&feed_forward_by_hand(w, b, &n2), |a, c| a + c)
}

fn model_by_hand(config: &AIMv2Config, w: &Weights, image: &Tensor) -> Tensor {
    let eps = f64::from_bits(config.rms_norm_eps_bits()) as f32;
    let embedded = add_positions(
        &linear(&patches(config, image), w.get(ParamId::Weight(LinearId::PatchProjection)), None),
        w.get(ParamId::PositionEmbedding),
    );
    let mut x = embedded;
    for b in 0..config.num_hidden_layers() {
        x = block_by_hand(config, w, b, &x);
    }
    rms_norm(&x, w.get(ParamId::Scale(NormId::PostTrunk)), eps)
}

fn max_abs_diff(a: &Tensor, b: &Tensor) -> f32 {
    assert_eq!(a.shape, b.shape);
    a.data.iter().zip(&b.data).map(|(x, y)| (x - y).abs()).fold(0.0, f32::max)
}

fn small(layers: u32) -> AIMv2Config {
    AIMv2Config::new(8, 2, layers, 12, 2, 6, 3, EPS_BITS, false, false).unwrap()
}

fn varied_weights(config: &AIMv2Config) -> Weights {
    Weights::for_model(config, |id, shape| {
        let seed = param_name(id).bytes().fold(7u32, |h, b| h.wrapping_mul(31).wrapping_add(b as u32));
        Tensor::varied(shape, seed).map(|v| v * 0.5)
    })
}

#[test]
fn norm_output_has_the_mean_square_of_its_scale() {
    let c = small(0);
    let eps = f64::from_bits(EPS_BITS) as f32;
    for (seed, s) in [(1u32, 1.0f32), (2, 0.5), (3, -2.0), (4, 3.0)] {
        let x = Tensor::varied(&[3, 5, 8], seed);
        let scale = Tensor::filled(&[8], s);
        let y = rms_norm(&x, &scale, eps);
        assert_eq!(y.shape, x.shape);
        for r in 0..y.rows() {
            let row = &y.data[r * 8..(r + 1) * 8];
            let mean_square = row.iter().map(|v| v * v).sum::<f32>() / 8.0;
            assert!((mean_square - s * s).abs() < 1e-3 * s * s, "{} vs {}", mean_square, s * s);
        }
    }
    // through the program: the closing norm of a trunk without blocks
    let w = Weights::for_model(&c, |_, shape| Tensor::filled(shape, 2.0));
    let ops = aimv2_rs::plan::trunk_plan(&c);
    let x = Tensor::varied(&[2, 9, 8], 11);
    let y = run(&c, &w, &ops, &x).swap_remove(STREAM);
    for r in 0..y.rows() {
        let mean_square = y.data[r * 8..(r + 1) * 8].iter().map(|v| v * v).sum::<f32>() / 8.0;
        assert!((mean_square - 4.0).abs() < 4e-3);
    }
}

#[test]
fn norm_rescales_and_never_recenters() {
    let eps = f64::from_bits(EPS_BITS) as f32;
    let x = Tensor { shape: vec![1, 4], data: vec![3.0, 3.0, 3.0, 3.0] };
    let y = rms_norm(&x, &Tensor::filled(&[4], 1.0), eps);
    for v in &y.data {
        assert!((v - 1.0).abs() < 1e-5);
    }
    let x = Tensor { shape: vec![1, 2], data: vec![3.0, 4.0] };
    let y = rms_norm(&x, &Tensor { shape: vec![2], data: vec![1.0, 2.0] }, 0.0);
    let rms = (12.5f32).sqrt();
    assert!((y.data[0] - 3.0 / rms).abs() < 1e-6);
    assert!((y.data[1] - 8.0 / rms).abs() < 1e-6);
}

#[test]
fn softmax_rows_sum_to_one() {
    let c = small(1);
    let w = varied_weights(&c);
    let ops = block_plan(0);
    let upto = ops
        .iter()
        .position(|op| matches!(op, Op::Unary { kind: UnaryKind::Softmax, .. }))
        .unwrap();
    for seq in [1usize, 2, 9, 33] {
        let x = Tensor::varied(&[2, seq, 8], seq as u32).map(|v| v * 4.0);
        let regs = run(&c, &w, &ops[..=upto], &x);
        let weights = &regs[LEFT];
        assert_eq!(weights.shape, vec![2, 2, seq, seq]);
        for r in 0..weights.rows() {
            let row = &weights.data[r * seq..(r + 1) * seq];
            let sum: f32 = row.iter().sum();
            assert!((sum - 1.0).abs() < 1e-5, "row {} sums to {}", r, sum);
            assert!(row.iter().all(|p| *p >= 0.0 && *p <= 1.0));
        }
    }
}

#[test]
fn softmax_is_stable_for_large_scores() {
    let x = Tensor { shape: vec![1, 3], data: vec![1000.0, 1001.0, 999.0] };
    let y = softmax(&x);
    assert!(y.data.iter().all(|p| p.is_finite()));
    assert!((y.data.iter().sum::<f32>() - 1.0).abs() < 1e-6);
    assert!((y.data[1] - 0.66524094).abs() < 1e-5);
}

#[test]
fn attention_output_has_the_shape_of_its_input() {
    let c = small(1);
    let w = varied_weights(&c);
    for batch in [1usize, 3] {
        for seq in [1usize, 2, 5, 9] {
            let x = Tensor::varied(&[batch, seq, 8], 5);
            let y = attention_by_hand(&c, &w, 0, &x);
            assert_eq!(y.shape, x.shape);
            assert_eq!(attention_output_shape(&c, &x.shape_u64()), Ok(y.shape_u64()));
        }
    }
}

#[test]
fn block_output_has_the_shape_of_its_input() {
    let c = small(1);
    let w = varied_weights(&c);
    for seq in [1usize, 4, 9] {
        let x = Tensor::varied(&[2, seq, 8], 6);
        let y = run(&c, &w, &block_plan(0), &x).swap_remove(STREAM);
        assert_eq!(y.shape, x.shape);
        assert_eq!(block_output_shape(&c, &x.shape_u64()), Ok(y.shape_u64()));
    }
}

#[test]
fn block_with_zero_weights_is_the_identity() {
    let c = small(1);
    let w = Weights::for_model(&c, |_, shape| Tensor::filled(shape, 0.0));
    for seed in [1u32, 2, 3] {
        let x = Tensor::varied(&[2, 9, 8], seed).map(|v| v * 10.0);
        let y = run(&c, &w, &block_plan(0), &x).swap_remove(STREAM);
        assert_eq!(y, x);
    }
}

#[test]
fn block_program_agrees_with_the_recipe() {
    let c = small(3);
    let w = varied_weights(&c);
    for b in 0..3u32 {
        let x = Tensor::varied(&[2, 9, 8], 40 + b);
        let by_program = run(&c, &w, &block_plan(b), &x).swap_remove(STREAM);
        let by_hand = block_by_hand(&c, &w, b, &x);
        assert!(max_abs_diff(&by_program, &by_hand) < 1e-6);
        // the block does change its input with these weights
        assert!(max_abs_diff(&by_program, &x) > 1e-2);
    }
}

#[test]
fn model_program_agrees_with_the_recipe() {
    for (layers, qkv_bias, use_bias) in [(2u32, false, false), (1, true, false)] {
        let c = AIMv2Config::new(8, 2, layers, 12, 2, 6, 3, EPS_BITS, qkv_bias, use_bias).unwrap();
        let w = varied_weights(&c);
        let image = Tensor::varied(&[2, 3, 6, 6], 99);
        let model = AIMv2Model::new(&c, &w.entries()).unwrap();
        let by_program = infer(&model, &w.tensors, &image);
        let by_hand = model_by_hand(&c, &w, &image);
        assert_eq!(by_program.shape, vec![2, 9, 8]);
        assert_eq!(model.output_shape(&image.shape_u64()), Ok(by_program.shape_u64()));
        assert!(max_abs_diff(&by_program, &by_hand) < 1e-5);
        assert_eq!(by_program, run(&c, &w, &model_plan(&c), &image).swap_remove(STREAM));
    }
}

#[test]
fn parameters_are_read_from_wherever_the_store_holds_them() {
    let c = small(2);
    let w = varied_weights(&c);
    let image = Tensor::varied(&[1, 3, 6, 6], 3);
    let model = AIMv2Model::new(&c, &w.entries()).unwrap();
    let straight = infer(&model, &w.tensors, &image);
    let mut shuffled = Weights { names: w.names.clone(), tensors: w.tensors.clone() };
    shuffled.names.reverse();
    shuffled.tensors.reverse();
    let model = AIMv2Model::new(&c, &shuffled.entries()).unwrap();
    assert_eq!(infer(&model, &shuffled.tensors, &image), straight);
}

#[test]
fn trunk_without_blocks_is_the_norm_of_the_embedded_patches() {
    let c = small(0);
    let w = varied_weights(&c);
    let eps = f64::from_bits(EPS_BITS) as f32;
    let image = Tensor::varied(&[2, 3, 6, 6], 17);
    let model = AIMv2Model::new(&c, &w.entries()).unwrap();
    let tokens = run(&c, &w, &preprocessor_plan(), &image).swap_remove(STREAM);
    let expected = rms_norm(&tokens, w.get(ParamId::Scale(NormId::PostTrunk)), eps);
    assert_eq!(infer(&model, &w.tensors, &image), expected);
}

#[test]
fn positions_follow_the_raster_order_of_the_patches() {
    // One channel, 4x4 image, 2x2 patches; the projection sums a patch, so that each token
    // is the sum of its own patch plus its own position.
    let c = AIMv2Config::new(1, 1, 0, 1, 2, 4, 1, EPS_BITS, false, false).unwrap();
    let w = Weights::for_model(&c, |id, shape| match id {
        ParamId::PositionEmbedding => {
            Tensor { shape: shape.to_vec(), data: vec![1000.0, 2000.0, 3000.0, 4000.0] }
        }
        _ => Tensor::filled(shape, 1.0),
    });
    let image = Tensor { shape: vec![1, 1, 4, 4], data: (0..16).map(|v| v as f32).collect() };
    let tokens = run(&c, &w, &preprocessor_plan(), &image).swap_remove(STREAM);
    assert_eq!(tokens.shape, vec![1, 4, 1]);
    // top left 0+1+4+5, top right 2+3+6+7, bottom left 8+9+12+13, bottom right 10+11+14+15
    assert_eq!(tokens.data, vec![1010.0, 2018.0, 3042.0, 4050.0]);
}

#[test]
fn all_ones_image_with_constant_weights() {
    // 1x3x224x224 image of ones, every weight 0.01, no biases.
    let (hidden, heads, layers, inner) = (8u32, 2u32, 2u32, 16u32);
    let c = AIMv2Config::new(hidden, heads, layers, inner, 14, 224, 3, EPS_BITS, false, false)
        .unwrap();
    let wv = 0.01f64;
    let w = Weights::for_model(&c, |_, shape| Tensor::filled(shape, wv as f32));
    let image = Tensor::filled(&[1, 3, 224, 224], 1.0);
    let model = AIMv2Model::new(&c, &w.entries()).unwrap();
    let out = infer(&model, &w.tensors, &image);
    assert_eq!(out.shape, vec![1, 256, 8]);
    assert_eq!(model_output_shape(&c, &image.shape_u64()), Ok(out.shape_u64()));

    // Every token and every channel holds the same value, which follows the recipe scalar
    // by scalar.
    let eps = f64::from_bits(EPS_BITS);
    let norm = |a: f64| a / (a * a + eps).sqrt() * wv;
    let (h, i) = (hidden as f64, inner as f64);
    let mut x = 588.0 * wv + wv;
    let mut before_closing = Vec::new();
    for _ in 0..layers {
        let v = h * wv * norm(x);
        let mid = x + h * wv * v;
        let g = h * wv * norm(mid);
        let gated = g / (1.0 + (-g).exp()) * g;
        x = mid + i * wv * gated;
        before_closing.push(x);
    }
    let golden = norm(x) as f32;
    assert!((golden - 0.0099999986).abs() < 1e-7);
    for v in &out.data {
        assert!((v - golden).abs() < 1e-4, "{} vs {}", v, golden);
    }

    // The stream in front of the closing norm, where the wiring shows.
    let ops = model_plan(&c);
    let stream = run(&c, &w, &ops[..ops.len() - 1], &image).swap_remove(STREAM);
    let expected = *before_closing.last().unwrap() as f32;
    assert!((expected - 5.8901283).abs() < 1e-3, "{}", expected);
    for v in &stream.data {
        assert!((v - expected).abs() < 1e-4, "{} vs {}", v, expected);
    }
}

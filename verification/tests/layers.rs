use aimv2_rs::config::AIMv2Config;
use aimv2_rs::layers::{
    attention_output_shape, block_output_shape, feed_forward_inner_shape,
    feed_forward_output_shape, model_output_shape, norm_output_shape, preprocessor_output_shape,
    trunk_output_shape, LayerKind, ShapeError, ShapeFault,
};

fn small(layers: u32) -> AIMv2Config {
    AIMv2Config::new(12, 3, layers, 20, 4, 8, 2, 0x3EE4_F8B5_88E3_68F1, false, false).unwrap()
}

#[test]
fn preprocessor_makes_256_patches_of_a_224_image() {
    let c = AIMv2Config::aimv2_large_patch14();
    assert_eq!(c.num_patches(), 256);
    for batch in [1u64, 2, 7] {
        let out = preprocessor_output_shape(&c, &vec![batch, 3, 224, 224]);
        assert_eq!(out, Ok(vec![batch, 256, 1024]));
    }
}

#[test]
fn model_output_is_batch_by_patches_by_hidden() {
    let c = AIMv2Config::aimv2_large_patch14();
    assert_eq!(model_output_shape(&c, &vec![1, 3, 224, 224]), Ok(vec![1, 256, 1024]));
    let s = small(2);
    assert_eq!(model_output_shape(&s, &vec![5, 2, 8, 8]), Ok(vec![5, 4, 12]));
    let flat = small(0);
    assert_eq!(model_output_shape(&flat, &vec![5, 2, 8, 8]), Ok(vec![5, 4, 12]));
}

#[test]
fn empty_batch_is_a_shape_like_any_other() {
    let s = small(1);
    assert_eq!(model_output_shape(&s, &vec![0, 2, 8, 8]), Ok(vec![0, 4, 12]));
}

#[test]
fn preprocessor_reports_the_first_fault() {
    let c = AIMv2Config::aimv2_large_patch14();
    let layer = LayerKind::Preprocessor;
    assert_eq!(
        preprocessor_output_shape(&c, &vec![3, 224, 224]),
        Err(ShapeError { layer, fault: ShapeFault::Rank { expected: 4, actual: 3 } })
    );
    assert_eq!(
        preprocessor_output_shape(&c, &vec![1, 4, 224, 225]),
        Err(ShapeError { layer, fault: ShapeFault::Channels { expected: 3, actual: 4 } })
    );
    assert_eq!(
        preprocessor_output_shape(&c, &vec![1, 3, 224, 225]),
        Err(ShapeError { layer, fault: ShapeFault::NonSquare { height: 224, width: 225 } })
    );
    assert_eq!(
        preprocessor_output_shape(&c, &vec![1, 3, 225, 225]),
        Err(ShapeError { layer, fault: ShapeFault::NotDivisible { size: 225, patch_size: 14 } })
    );
    assert_eq!(
        preprocessor_output_shape(&c, &vec![1, 3, 210, 210]),
        Err(ShapeError { layer, fault: ShapeFault::ImageSize { expected: 224, actual: 210 } })
    );
}

#[test]
fn model_reports_the_fault_of_the_preprocessor() {
    let c = AIMv2Config::aimv2_large_patch14();
    assert_eq!(
        model_output_shape(&c, &vec![1, 1, 224, 224]),
        Err(ShapeError {
            layer: LayerKind::Preprocessor,
            fault: ShapeFault::Channels { expected: 3, actual: 1 },
        })
    );
}

#[test]
fn norm_keeps_any_shape_with_a_hidden_last_axis() {
    let s = small(1);
    assert_eq!(norm_output_shape(&s, &vec![12]), Ok(vec![12]));
    assert_eq!(norm_output_shape(&s, &vec![3, 12]), Ok(vec![3, 12]));
    assert_eq!(norm_output_shape(&s, &vec![2, 5, 12]), Ok(vec![2, 5, 12]));
    assert_eq!(norm_output_shape(&s, &vec![2, 3, 5, 12]), Ok(vec![2, 3, 5, 12]));
}

#[test]
fn norm_reports_a_mismatched_last_axis() {
    let s = small(1);
    assert_eq!(
        norm_output_shape(&s, &vec![2, 5, 13]),
        Err(ShapeError {
            layer: LayerKind::Norm,
            fault: ShapeFault::LastDim { expected: 12, actual: 13 },
        })
    );
    assert_eq!(
        norm_output_shape(&s, &vec![2, 5, 1]),
        Err(ShapeError {
            layer: LayerKind::Norm,
            fault: ShapeFault::LastDim { expected: 12, actual: 1 },
        })
    );
    assert_eq!(
        norm_output_shape(&s, &vec![]),
        Err(ShapeError { layer: LayerKind::Norm, fault: ShapeFault::Rank { expected: 1, actual: 0 } })
    );
}

#[test]
fn attention_keeps_the_shape_for_every_sequence_length() {
    let s = small(1);
    for batch in [1u64, 3] {
        for seq in [1u64, 2, 4, 17, 256] {
            let input = vec![batch, seq, 12];
            assert_eq!(attention_output_shape(&s, &input), Ok(input.clone()));
        }
    }
}

#[test]
fn attention_wants_a_token_sequence() {
    let s = small(1);
    assert_eq!(
        attention_output_shape(&s, &vec![5, 12]),
        Err(ShapeError {
            layer: LayerKind::Attention,
            fault: ShapeFault::Rank { expected: 3, actual: 2 },
        })
    );
    assert_eq!(
        attention_output_shape(&s, &vec![2, 5, 11]),
        Err(ShapeError {
            layer: LayerKind::Attention,
            fault: ShapeFault::LastDim { expected: 12, actual: 11 },
        })
    );
}

#[test]
fn feed_forward_widens_and_narrows_the_last_axis() {
    let s = small(1);
    assert_eq!(feed_forward_inner_shape(&s, &vec![2, 5, 12]), Ok(vec![2, 5, 20]));
    assert_eq!(feed_forward_output_shape(&s, &vec![2, 5, 12]), Ok(vec![2, 5, 12]));
    assert_eq!(feed_forward_inner_shape(&s, &vec![12]), Ok(vec![20]));
    assert_eq!(feed_forward_output_shape(&s, &vec![7, 12]), Ok(vec![7, 12]));
    let fault = ShapeError {
        layer: LayerKind::FeedForward,
        fault: ShapeFault::LastDim { expected: 12, actual: 20 },
    };
    assert_eq!(feed_forward_inner_shape(&s, &vec![2, 5, 20]), Err(fault));
    assert_eq!(feed_forward_output_shape(&s, &vec![2, 5, 20]), Err(fault));
}

#[test]
fn block_keeps_the_shape() {
    let s = small(1);
    for seq in [1u64, 4, 9] {
        let input = vec![2, seq, 12];
        assert_eq!(block_output_shape(&s, &input), Ok(input.clone()));
    }
}

#[test]
fn block_reports_the_sublayer_that_meets_the_fault() {
    let s = small(1);
    assert_eq!(
        block_output_shape(&s, &vec![2, 4, 13]),
        Err(ShapeError {
            layer: LayerKind::Norm,
            fault: ShapeFault::LastDim { expected: 12, actual: 13 },
        })
    );
    assert_eq!(
        block_output_shape(&s, &vec![4, 12]),
        Err(ShapeError {
            layer: LayerKind::Attention,
            fault: ShapeFault::Rank { expected: 3, actual: 2 },
        })
    );
}

#[test]
fn trunk_keeps_the_shape() {
    for layers in [0u32, 1, 3] {
        let s = small(layers);
        assert_eq!(trunk_output_shape(&s, &vec![2, 4, 12]), Ok(vec![2, 4, 12]));
    }
}

#[test]
fn trunk_without_blocks_is_the_closing_norm() {
    let flat = small(0);
    assert_eq!(trunk_output_shape(&flat, &vec![4, 12]), norm_output_shape(&flat, &vec![4, 12]));
    assert_eq!(trunk_output_shape(&flat, &vec![4, 12]), Ok(vec![4, 12]));
    assert_eq!(trunk_output_shape(&flat, &vec![4, 11]), norm_output_shape(&flat, &vec![4, 11]));
    let deep = small(2);
    assert_eq!(
        trunk_output_shape(&deep, &vec![4, 12]),
        Err(ShapeError {
            layer: LayerKind::Attention,
            fault: ShapeFault::Rank { expected: 3, actual: 2 },
        })
    );
}

use aimv2_rs::binding::{ParameterBindingError, StoreEntry};
use aimv2_rs::config::AIMv2Config;
use aimv2_rs::layers::{LayerKind, ShapeError, ShapeFault};
use aimv2_rs::model::AIMv2Model;
use aimv2_rs::params::{expected_params, expected_shape, param_name, ParamId};
use aimv2_rs::plan::model_plan;
use aimv2_rs::term::{LinearId, NormId};

fn store_for(config: &AIMv2Config) -> Vec<StoreEntry> {
    expected_params(config)
        .into_iter()
        .map(|id| StoreEntry { name: param_name(id), shape: expected_shape(config, id) })
        .collect()
}

#[test]
fn large_model_binds_to_a_complete_store() {
    let c = AIMv2Config::aimv2_large_patch14();
    let store = store_for(&c);
    assert_eq!(store.len(), 219);
    let model = AIMv2Model::new(&c, &store).unwrap();
    assert_eq!(model.config().hidden_size(), 1024);
    assert_eq!(*model.params(), expected_params(&c));
    assert_eq!(*model.slots(), (0..219).collect::<Vec<usize>>());
    assert_eq!(*model.plan(), model_plan(&c));
    assert_eq!(model.output_shape(&vec![1, 3, 224, 224]), Ok(vec![1, 256, 1024]));
}

#[test]
fn slots_point_into_the_store() {
    let c = AIMv2Config::new(12, 3, 2, 20, 4, 8, 2, 0, true, false).unwrap();
    let mut store = store_for(&c);
    store.rotate_left(5);
    store.insert(0, StoreEntry { name: "optimizer.step".to_string(), shape: vec![] });
    let model = AIMv2Model::new(&c, &store).unwrap();
    for (k, id) in model.params().iter().enumerate() {
        let slot = model.slots()[k];
        assert_eq!(store[slot].name, param_name(*id));
        assert_eq!(store[slot].shape, expected_shape(&c, *id));
        assert_eq!(model.slot_of(*id), Some(slot));
    }
}

#[test]
fn slot_of_knows_only_the_parameters_of_the_model() {
    let c = AIMv2Config::new(12, 3, 2, 20, 4, 8, 2, 0, false, false).unwrap();
    let model = AIMv2Model::new(&c, &store_for(&c)).unwrap();
    assert_eq!(model.slot_of(ParamId::Weight(LinearId::PatchProjection)), Some(0));
    assert_eq!(model.slot_of(ParamId::PositionEmbedding), Some(1));
    assert_eq!(model.slot_of(ParamId::Scale(NormId::First(0))), Some(2));
    assert_eq!(model.slot_of(ParamId::Weight(LinearId::Down(1))), Some(19));
    assert_eq!(model.slot_of(ParamId::Scale(NormId::PostTrunk)), Some(20));
    assert_eq!(model.slot_of(ParamId::Bias(LinearId::Query(0))), None);
    assert_eq!(model.slot_of(ParamId::Bias(LinearId::PatchProjection)), None);
    assert_eq!(model.slot_of(ParamId::Weight(LinearId::Query(2))), None);
    assert_eq!(model.slot_of(ParamId::Scale(NormId::Second(7))), None);
}

#[test]
fn construction_fails_on_a_missing_parameter() {
    let c = AIMv2Config::new(12, 3, 4, 20, 4, 8, 2, 0, false, false).unwrap();
    let mut store = store_for(&c);
    store.retain(|e| e.name != "trunk.blocks.3.attn.q_proj.weight");
    assert_eq!(
        AIMv2Model::new(&c, &store).err(),
        Some(ParameterBindingError::Missing {
            name: "trunk.blocks.3.attn.q_proj.weight".to_string()
        })
    );
    assert_eq!(
        AIMv2Model::new(&c, &Vec::new()).err(),
        Some(ParameterBindingError::Missing {
            name: "preprocessor.patchifier.proj.weight".to_string()
        })
    );
}

#[test]
fn construction_fails_on_a_shape_mismatch() {
    let c = AIMv2Config::new(12, 3, 1, 20, 4, 8, 2, 0, false, false).unwrap();
    let mut store = store_for(&c);
    for e in store.iter_mut() {
        if e.name == "preprocessor.pos_embed" {
            e.shape = vec![1, 4, 12];
        }
    }
    assert_eq!(
        AIMv2Model::new(&c, &store).err(),
        Some(ParameterBindingError::ShapeMismatch {
            name: "preprocessor.pos_embed".to_string(),
            expected: vec![4, 12],
            actual: vec![1, 4, 12],
        })
    );
}

#[test]
fn biases_are_required_only_where_switched_on() {
    let plain = AIMv2Config::new(12, 3, 1, 20, 4, 8, 2, 0, false, false).unwrap();
    let biased = AIMv2Config::new(12, 3, 1, 20, 4, 8, 2, 0, true, true).unwrap();
    let plain_store = store_for(&plain);
    assert!(AIMv2Model::new(&plain, &plain_store).is_ok());
    assert_eq!(
        AIMv2Model::new(&biased, &plain_store).err(),
        Some(ParameterBindingError::Missing {
            name: "preprocessor.patchifier.proj.bias".to_string()
        })
    );
    // A store with more entries than the model needs is fine.
    assert!(AIMv2Model::new(&plain, &store_for(&biased)).is_ok());
}

#[test]
fn model_without_blocks() {
    let c = AIMv2Config::new(12, 3, 0, 20, 4, 8, 2, 0, false, false).unwrap();
    let model = AIMv2Model::new(&c, &store_for(&c)).unwrap();
    assert_eq!(model.params().len(), 3);
    assert_eq!(model.plan().len(), 4);
    assert_eq!(model.output_shape(&vec![2, 2, 8, 8]), Ok(vec![2, 4, 12]));
}

#[test]
fn output_shape_reports_a_bad_image() {
    let c = AIMv2Config::new(12, 3, 1, 20, 4, 8, 2, 0, false, false).unwrap();
    let model = AIMv2Model::new(&c, &store_for(&c)).unwrap();
    assert_eq!(
        model.output_shape(&vec![2, 2, 8, 12]),
        Err(ShapeError {
            layer: LayerKind::Preprocessor,
            fault: ShapeFault::NonSquare { height: 8, width: 12 },
        })
    );
    assert_eq!(
        model.output_shape(&vec![2, 2, 10, 10]),
        Err(ShapeError {
            layer: LayerKind::Preprocessor,
            fault: ShapeFault::NotDivisible { size: 10, patch_size: 4 },
        })
    );
    assert_eq!(
        model.output_shape(&vec![2, 2, 12, 12]),
        Err(ShapeError {
            layer: LayerKind::Preprocessor,
            fault: ShapeFault::ImageSize { expected: 8, actual: 12 },
        })
    );
}

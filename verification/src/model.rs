//! The model: a configuration, the table that binds its parameters to a store, and the
//! program of its forward pass.

use vstd::prelude::*;
use crate::binding::{bind_all, binds, first_fault, ParameterBindingError, StoreEntry};
use crate::config::{num_patches_of, AIMv2Config, ConfigView};
use crate::layers::{model_output_shape, preprocessor_fault, LayerKind, ShapeError};
use crate::params::{expected_params, model_params, ParamId};
use crate::plan::{model_ops, model_plan, Op};
use crate::reads::{includes, lemma_program_reads_the_table, op_parameters, op_reads};
use crate::shape::{dims, model_shape};

verus! {

/// The mathematical content of a model.
pub struct ModelView {
    /// The configuration the model was built for.
    pub config: ConfigView,
    /// For each parameter of the model, in table order, the index of its entry in the store.
    pub slots: Seq<usize>,
}

/// The index of the first occurrence of a parameter in a list, if it occurs.
pub open spec fn position(params: Seq<ParamId>, id: ParamId) -> Option<int>
    decreases params.len(),
{
    if params.len() == 0 {
        None
    } else {
        match position(params.drop_last(), id) {
            Some(k) => Some(k),
            None => if params.last() == id {
                Some(params.len() - 1)
            } else {
                None
            },
        }
    }
}

/// A position found among the first `k` parameters is the position in the whole list.
proof fn lemma_position_of_prefix(params: Seq<ParamId>, id: ParamId, k: int)
    requires
        0 <= k <= params.len(),
        position(params.take(k), id) is Some,
    ensures
        position(params, id) == position(params.take(k), id),
        0 <= position(params, id).unwrap() < k,
    decreases params.len() - k,
{
    lemma_position_in_range(params.take(k), id);
    if k < params.len() {
        assert(params.take(k + 1).drop_last() =~= params.take(k));
        lemma_position_of_prefix(params, id, k + 1);
    } else {
        assert(params.take(k) =~= params);
    }
}

/// A position lies within the list.
proof fn lemma_position_in_range(params: Seq<ParamId>, id: ParamId)
    ensures
        position(params, id) is Some ==> 0 <= position(params, id).unwrap() < params.len(),
    decreases params.len(),
{
    if params.len() > 0 {
        lemma_position_in_range(params.drop_last(), id);
    }
}

/// A parameter has a position in a list exactly when it occurs in the list.
pub proof fn lemma_position_iff_contains(params: Seq<ParamId>, id: ParamId)
    ensures
        position(params, id) is Some <==> params.contains(id),
        position(params, id) is Some ==> 0 <= position(params, id).unwrap() < params.len()
            && params[position(params, id).unwrap()] == id,
    decreases params.len(),
{
    if params.len() > 0 {
        let front = params.drop_last();
        lemma_position_iff_contains(front, id);
        if params.contains(id) {
            let k = choose|k: int| 0 <= k < params.len() && params[k] == id;
            if k < params.len() - 1 {
                assert(front[k] == id);
            }
        }
        if front.contains(id) {
            let k = choose|k: int| 0 <= k < front.len() && front[k] == id;
            assert(params[k] == id);
        }
    }
}

/// For each parameter of `reads` in turn, the store index that the table binds it to.
pub open spec fn slots_of_reads(params: Seq<ParamId>, slots: Seq<usize>, reads: Seq<ParamId>) -> Seq<
    usize,
> {
    Seq::new(reads.len(), |j: int| slots[position(params, reads[j]).unwrap()])
}

/// A vision transformer, ready to run: every parameter it needs has been found in the
/// store and has the shape that the configuration asks for.
#[derive(Debug)]
pub struct AIMv2Model {
    config: AIMv2Config,
    params: Vec<ParamId>,
    slots: Vec<usize>,
    ops: Vec<Op>,
}

impl View for AIMv2Model {
    type V = ModelView;

    closed spec fn view(&self) -> ModelView {
        ModelView { config: self.config@, slots: self.slots@ }
    }
}

impl AIMv2Model {
    #[verifier::type_invariant]
    spec fn inv(&self) -> bool {
        &&& self.config.inv()
        &&& self.params@ == model_params(self.config@)
        &&& self.slots@.len() == self.params@.len()
        &&& self.ops@ == model_ops(self.config@.num_hidden_layers as nat)
    }

    /// Builds the model for a configuration and binds its parameters to the entries of a
    /// store. Every parameter is looked up and checked here; the error is that of the first
    /// parameter, in table order, that is missing or has the wrong shape.
    pub fn new(config: &AIMv2Config, store: &Vec<StoreEntry>) -> (built: Result<
        AIMv2Model,
        ParameterBindingError,
    >)
        ensures
            match built {
                Ok(model) => {
                    &&& model@.config == config@
                    &&& first_fault(config@, store@, model_params(config@)) is None
                    &&& binds(config@, store@, model_params(config@), model@.slots)
                },
                Err(e) => first_fault(config@, store@, model_params(config@)) == Some(e@),
            },
    {
        proof {
            use_type_invariant(config);
        }
        let params = expected_params(config);
        match bind_all(config, store, &params) {
            Err(e) => Err(e),
            Ok(slots) => Ok(AIMv2Model { config: *config, params, slots, ops: model_plan(config) }),
        }
    }

    /// The configuration the model was built for.
    pub fn config(&self) -> (c: &AIMv2Config)
        ensures
            c@ == self@.config,
    {
        &self.config
    }

    /// The parameters of the model, in table order.
    pub fn params(&self) -> (list: &Vec<ParamId>)
        ensures
            list@ == model_params(self@.config),
    {
        proof {
            use_type_invariant(self);
        }
        &self.params
    }

    /// For each parameter, in table order, the index of its entry in the store.
    pub fn slots(&self) -> (list: &Vec<usize>)
        ensures
            list@ == self@.slots,
            list@.len() == model_params(self@.config).len(),
    {
        proof {
            use_type_invariant(self);
        }
        &self.slots
    }

    /// The program of the forward pass.
    pub fn plan(&self) -> (ops: &Vec<Op>)
        ensures
            ops@ == model_ops(self@.config.num_hidden_layers as nat),
    {
        proof {
            use_type_invariant(self);
        }
        &self.ops
    }

    /// The index in the store of the entry bound to a parameter, or `None` for a parameter
    /// that this model does not have.
    pub fn slot_of(&self, id: ParamId) -> (slot: Option<usize>)
        ensures
            slot == match position(model_params(self@.config), id) {
                Some(k) => Some(self@.slots[k]),
                None => None,
            },
    {
        proof {
            use_type_invariant(self);
        }
        let mut k: usize = 0;
        while k < self.params.len()
            invariant
                k <= self.params.len(),
                self.params@ == model_params(self@.config),
                self.slots@ == self@.slots,
                self.slots@.len() == self.params@.len(),
                position(self.params@.take(k as int), id) is None,
            decreases self.params.len() - k,
        {
            proof {
                assert(self.params@.take(k + 1).drop_last() =~= self.params@.take(k as int));
            }
            if self.params[k] == id {
                proof {
                    lemma_position_of_prefix(self.params@, id, k + 1);
                }
                return Some(self.slots[k]);
            }
            k += 1;
        }
        proof {
            assert(self.params@.take(self.params.len() as int) =~= self.params@);
        }
        None
    }

    /// The shape of the token sequence that the model returns for an image batch of shape
    /// `input`: `[batch, num_patches, hidden]` for `[batch, channels, image_size, image_size]`,
    /// and an error for any other shape.
    pub fn output_shape(&self, input: &Vec<u64>) -> (out: Result<Vec<u64>, ShapeError>)
        ensures
            match out {
                Ok(shape) => model_shape(self@.config, dims(input@)) == Some(dims(shape@))
                    && shape@ == seq![
                    input@[0],
                    num_patches_of(self@.config) as u64,
                    self@.config.hidden_size as u64,
                ],
                Err(e) => model_shape(self@.config, dims(input@)) is None && e == (ShapeError {
                    layer: LayerKind::Preprocessor,
                    fault: preprocessor_fault(self@.config, input@),
                }),
            },
    {
        model_output_shape(&self.config, input)
    }
    /// The store indices of the parameters that an instruction reads, in the order in which
    /// it needs them: for a projection its weight, then its bias if it has one. `None` for
    /// an instruction that reads a parameter which this model does not have; no instruction
    /// of the model's own program is such.
    pub fn op_slots(&self, op: Op) -> (found: Option<Vec<usize>>)
        ensures
            found is Some <==> includes(
                model_params(self@.config),
                op_reads(self@.config, op),
            ),
            found is Some ==> found.unwrap()@ == slots_of_reads(
                model_params(self@.config),
                self@.slots,
                op_reads(self@.config, op),
            ),
            model_ops(self@.config.num_hidden_layers as nat).contains(op) ==> found is Some,
    {
        proof {
            use_type_invariant(self);
            use_type_invariant(&self.config);
            lemma_program_reads_the_table(self@.config);
        }
        let reads = op_parameters(&self.config, op);
        let ghost table = model_params(self@.config);
        let ghost program = model_ops(self@.config.num_hidden_layers as nat);
        proof {
            if program.contains(op) {
                let i = choose|i: int| 0 <= i < program.len() && program[i] == op;
                assert(includes(table, op_reads(self@.config, program[i])));
            }
        }
        let mut found: Vec<usize> = Vec::new();
        let mut j: usize = 0;
        while j < reads.len()
            invariant
                j <= reads.len(),
                reads@ == op_reads(self@.config, op),
                program == model_ops(self@.config.num_hidden_layers as nat),
                program.contains(op) ==> includes(table, reads@),
                self.slots@.len() == table.len(),
                table == model_params(self@.config),
                found@.len() == j,
                forall|t: int| 0 <= t < j ==> table.contains(#[trigger] reads@[t]),
                forall|t: int|
                    0 <= t < j ==> #[trigger] found@[t] == self@.slots[position(
                        table,
                        reads@[t],
                    ).unwrap()],
            decreases reads.len() - j,
        {
            proof {
                lemma_position_iff_contains(table, reads@[j as int]);
            }
            match self.slot_of(reads[j]) {
                None => {
                    return None;
                },
                Some(slot) => {
                    found.push(slot);
                },
            }
            j += 1;
        }
        proof {
            assert(found@ =~= slots_of_reads(table, self@.slots, reads@));
        }
        Some(found)
    }
}

} // verus!

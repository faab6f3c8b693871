//! Binding the model's parameters to the entries of a parameter store.
//!
//! The store is owned elsewhere; what is seen of it here is the list of its entries, each
//! with its name and the shape of its tensor. Binding looks every parameter up once and
//! checks its shape, so that nothing is left to fail during a forward pass.

use vstd::prelude::*;
use crate::config::{AIMv2Config, ConfigView};
use crate::layers::copy_shape;
use crate::params::{expected_shape, name_of, param_name, param_shape, ParamId};
use crate::shape::dims;

verus! {

/// One entry of a parameter store: a dotted name and the shape of the tensor under it.
#[derive(Clone, Debug, PartialEq, Eq)]
pub struct StoreEntry {
    pub name: String,
    pub shape: Vec<u64>,
}

/// Why a parameter could not be bound.
#[derive(Clone, Debug, PartialEq, Eq)]
pub enum ParameterBindingError {
    /// The store has no entry of that name.
    Missing { name: String },
    /// The entry of that name has another shape than the configuration asks for.
    ShapeMismatch { name: String, expected: Vec<u64>, actual: Vec<u64> },
}

/// The mathematical content of a binding error.
pub enum BindingFault {
    Missing { name: Seq<char> },
    ShapeMismatch { name: Seq<char>, expected: Seq<int>, actual: Seq<int> },
}

impl View for ParameterBindingError {
    type V = BindingFault;

    open spec fn view(&self) -> BindingFault {
        match self {
            ParameterBindingError::Missing { name } => BindingFault::Missing { name: name@ },
            ParameterBindingError::ShapeMismatch { name, expected, actual } => {
                BindingFault::ShapeMismatch {
                    name: name@,
                    expected: dims(expected@),
                    actual: dims(actual@),
                }
            },
        }
    }
}

/// The index of the first entry called `name`, if there is one.
pub open spec fn lookup(store: Seq<StoreEntry>, name: Seq<char>) -> Option<int>
    decreases store.len(),
{
    if store.len() == 0 {
        None
    } else {
        match lookup(store.drop_last(), name) {
            Some(j) => Some(j),
            None => if store.last().name@ == name {
                Some(store.len() - 1)
            } else {
                None
            },
        }
    }
}

/// What stands in the way of binding one parameter, if anything does.
pub open spec fn fault_of(m: ConfigView, store: Seq<StoreEntry>, id: ParamId) -> Option<
    BindingFault,
> {
    match lookup(store, name_of(id)) {
        None => Some(BindingFault::Missing { name: name_of(id) }),
        Some(j) => if dims(store[j].shape@) == param_shape(m, id) {
            None
        } else {
            Some(
                BindingFault::ShapeMismatch {
                    name: name_of(id),
                    expected: param_shape(m, id),
                    actual: dims(store[j].shape@),
                },
            )
        },
    }
}

/// What stands in the way of binding the first parameter of `params` that cannot be bound.
pub open spec fn first_fault(m: ConfigView, store: Seq<StoreEntry>, params: Seq<ParamId>) -> Option<
    BindingFault,
>
    decreases params.len(),
{
    if params.len() == 0 {
        None
    } else {
        match first_fault(m, store, params.drop_last()) {
            Some(f) => Some(f),
            None => fault_of(m, store, params.last()),
        }
    }
}

/// Every parameter of `params` has an entry of the right shape, and `slots` holds, for each
/// in turn, the index of the first entry of its name.
pub open spec fn binds(
    m: ConfigView,
    store: Seq<StoreEntry>,
    params: Seq<ParamId>,
    slots: Seq<usize>,
) -> bool {
    &&& slots.len() == params.len()
    &&& forall|k: int|
        0 <= k < params.len() ==> {
            &&& lookup(store, name_of(#[trigger] params[k])) == Some(slots[k] as int)
            &&& fault_of(m, store, params[k]) is None
        }
}

/// What `lookup` finds is the first entry of that name.
pub proof fn lemma_lookup_is_first(store: Seq<StoreEntry>, name: Seq<char>)
    ensures
        match lookup(store, name) {
            Some(j) => 0 <= j < store.len() && store[j].name@ == name && forall|i: int|
                0 <= i < j ==> (#[trigger] store[i]).name@ != name,
            None => forall|i: int| 0 <= i < store.len() ==> (#[trigger] store[i]).name@ != name,
        },
    decreases store.len(),
{
    if store.len() > 0 {
        lemma_lookup_is_first(store.drop_last(), name);
        assert(forall|i: int| 0 <= i < store.len() - 1 ==> store.drop_last()[i] == store[i]);
    }
}

/// Shapes are equal exactly when their extents are equal as integers.
pub proof fn lemma_dims_injective(a: Seq<u64>, b: Seq<u64>)
    ensures
        (dims(a) == dims(b)) == (a == b),
{
    if dims(a) == dims(b) {
        assert(a.len() == dims(a).len());
        assert(b.len() == dims(b).len());
        assert forall|i: int| 0 <= i < a.len() implies a[i] == b[i] by {
            assert(dims(a)[i] == dims(b)[i]);
        }
        assert(a =~= b);
    }
}

/// Whether two shapes are equal.
fn same_shape(a: &Vec<u64>, b: &Vec<u64>) -> (same: bool)
    ensures
        same == (a@ == b@),
        same == (dims(a@) == dims(b@)),
{
    proof {
        lemma_dims_injective(a@, b@);
    }
    if a.len() != b.len() {
        return false;
    }
    let mut i: usize = 0;
    while i < a.len()
        invariant
            i <= a.len(),
            a.len() == b.len(),
            a@.subrange(0, i as int) == b@.subrange(0, i as int),
            (dims(a@) == dims(b@)) == (a@ == b@),
        decreases a.len() - i,
    {
        if a[i] != b[i] {
            return false;
        }
        proof {
            assert(a@.subrange(0, i + 1) =~= a@.subrange(0, i as int).push(a@[i as int]));
            assert(b@.subrange(0, i + 1) =~= b@.subrange(0, i as int).push(b@[i as int]));
        }
        i += 1;
    }
    proof {
        assert(a@ =~= a@.subrange(0, a.len() as int));
        assert(b@ =~= b@.subrange(0, b.len() as int));
    }
    true
}

/// The index of the first entry of the store that is called `name`.
pub fn find_entry(store: &Vec<StoreEntry>, name: &String) -> (found: Option<usize>)
    ensures
        match found {
            Some(j) => lookup(store@, name@) == Some(j as int) && j < store@.len(),
            None => lookup(store@, name@) is None,
        },
{
    let mut i: usize = 0;
    while i < store.len()
        invariant
            i <= store.len(),
            lookup(store@.take(i as int), name@) is None,
        decreases store.len() - i,
    {
        proof {
            assert(store@.take(i + 1).drop_last() =~= store@.take(i as int));
        }
        if store[i].name == *name {
            proof {
                lemma_lookup_of_prefix(store@, name@, i + 1);
            }
            return Some(i);
        }
        i += 1;
    }
    proof {
        assert(store@.take(store.len() as int) =~= store@);
    }
    None
}

/// An entry found in the first `k` entries is the entry found in the whole store.
proof fn lemma_lookup_of_prefix(store: Seq<StoreEntry>, name: Seq<char>, k: int)
    requires
        0 <= k <= store.len(),
        lookup(store.take(k), name) is Some,
    ensures
        lookup(store, name) == lookup(store.take(k), name),
    decreases store.len() - k,
{
    if k < store.len() {
        assert(store.take(k + 1).drop_last() =~= store.take(k));
        lemma_lookup_of_prefix(store, name, k + 1);
    } else {
        assert(store.take(k) =~= store);
    }
}

/// Binds one parameter: the index of its entry, or what stands in the way.
pub fn bind_one(config: &AIMv2Config, store: &Vec<StoreEntry>, id: ParamId) -> (bound: Result<
    usize,
    ParameterBindingError,
>)
    ensures
        match bound {
            Ok(j) => fault_of(config@, store@, id) is None && lookup(store@, name_of(id)) == Some(
                j as int,
            ) && j < store@.len(),
            Err(e) => fault_of(config@, store@, id) == Some(e@),
        },
{
    let name = param_name(id);
    let expected = expected_shape(config, id);
    match find_entry(store, &name) {
        None => Err(ParameterBindingError::Missing { name }),
        Some(j) => {
            if same_shape(&store[j].shape, &expected) {
                Ok(j)
            } else {
                Err(
                    ParameterBindingError::ShapeMismatch {
                        name,
                        expected,
                        actual: copy_shape(&store[j].shape),
                    },
                )
            }
        },
    }
}

/// Binds every parameter of `params`, in order. The error is that of the first parameter
/// that cannot be bound.
pub fn bind_all(config: &AIMv2Config, store: &Vec<StoreEntry>, params: &Vec<ParamId>) -> (bound:
    Result<Vec<usize>, ParameterBindingError>)
    ensures
        match bound {
            Ok(slots) => first_fault(config@, store@, params@) is None && binds(
                config@,
                store@,
                params@,
                slots@,
            ),
            Err(e) => first_fault(config@, store@, params@) == Some(e@),
        },
{
    let mut slots: Vec<usize> = Vec::new();
    let mut k: usize = 0;
    while k < params.len()
        invariant
            k <= params.len(),
            first_fault(config@, store@, params@.take(k as int)) is None,
            binds(config@, store@, params@.take(k as int), slots@),
        decreases params.len() - k,
    {
        proof {
            assert(params@.take(k + 1).drop_last() =~= params@.take(k as int));
        }
        match bind_one(config, store, params[k]) {
            Err(e) => {
                proof {
                    lemma_first_fault_of_prefix(config@, store@, params@, k + 1);
                }
                return Err(e);
            },
            Ok(j) => {
                slots.push(j);
            },
        }
        k += 1;
    }
    proof {
        assert(params@.take(params.len() as int) =~= params@);
    }
    Ok(slots)
}

/// A fault among the first `k` parameters is the fault of the whole list.
proof fn lemma_first_fault_of_prefix(
    m: ConfigView,
    store: Seq<StoreEntry>,
    params: Seq<ParamId>,
    k: int,
)
    requires
        0 <= k <= params.len(),
        first_fault(m, store, params.take(k)) is Some,
    ensures
        first_fault(m, store, params) == first_fault(m, store, params.take(k)),
    decreases params.len() - k,
{
    if k < params.len() {
        assert(params.take(k + 1).drop_last() =~= params.take(k));
        lemma_first_fault_of_prefix(m, store, params, k + 1);
    } else {
        assert(params.take(k) =~= params);
    }
}

} // verus!

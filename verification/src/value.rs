//! The dynamic value model: the tagged union every other component of the
//! crate produces or consumes.
//!
//! A [`Value`] is a string, an integer (signed or unsigned — some unsigned
//! magnitudes have no signed representation, so the two are distinguished),
//! a real, a boolean, a byte blob, an order-preserving sequence, or a
//! key-ordered mapping.  Contracts speak about values through the
//! mathematical model [`ValueModel`], reached by the [`View`] impl.

use vstd::prelude::*;

use crate::reals::Real;

verus! {

broadcast use vstd::std_specs::vec::group_vec_axioms;

/// A dynamic value: the universal output type of the transcoder.
#[derive(Debug, PartialEq)]
pub enum Value {
    Str(String),
    Int(i64),
    Uint(u64),
    Real(Real),
    Bool(bool),
    Bytes(Vec<u8>),
    Sequence(Vec<Value>),
    Mapping(Vec<(String, Value)>),
}

/// The mathematical model of a [`Value`]: strings become character
/// sequences, vectors become sequences, and mapping entries become
/// key/value pairs of models.
#[verifier::ext_equal]
pub enum ValueModel {
    Str(Seq<char>),
    Int(i64),
    Uint(u64),
    Real(Real),
    Bool(bool),
    Bytes(Seq<u8>),
    Sequence(Seq<ValueModel>),
    Mapping(Seq<(Seq<char>, ValueModel)>),
}

/// The model of a value, defined structurally.
pub open spec fn value_model(v: Value) -> ValueModel
    decreases v, 0int, 0int,
{
    match v {
        Value::Str(s) => ValueModel::Str(s@),
        Value::Int(i) => ValueModel::Int(i),
        Value::Uint(u) => ValueModel::Uint(u),
        Value::Real(r) => ValueModel::Real(r),
        Value::Bool(b) => ValueModel::Bool(b),
        Value::Bytes(b) => ValueModel::Bytes(b@),
        Value::Sequence(vs) => ValueModel::Sequence(value_models_upto(vs@, vs@.len() as int)),
        Value::Mapping(es) => ValueModel::Mapping(entry_models_upto(es@, es@.len() as int)),
    }
}

/// The models of the first `n` values of a sequence, in order.
pub open spec fn value_models_upto(s: Seq<Value>, n: int) -> Seq<ValueModel>
    recommends
        0 <= n <= s.len(),
    decreases s, 1int, n,
{
    if n <= 0 || n > s.len() {
        Seq::empty()
    } else {
        value_models_upto(s, n - 1).push(value_model(s[n - 1]))
    }
}

/// The models of the first `n` mapping entries of a sequence, in order.
pub open spec fn entry_models_upto(s: Seq<(String, Value)>, n: int) -> Seq<
    (Seq<char>, ValueModel),
>
    recommends
        0 <= n <= s.len(),
    decreases s, 1int, n,
{
    if n <= 0 || n > s.len() {
        Seq::empty()
    } else {
        entry_models_upto(s, n - 1).push((s[n - 1].0@, value_model(s[n - 1].1)))
    }
}

/// The models of a whole sequence of values.
pub open spec fn value_models(s: Seq<Value>) -> Seq<ValueModel> {
    value_models_upto(s, s.len() as int)
}

/// The models of a whole sequence of mapping entries.
pub open spec fn entry_models(s: Seq<(String, Value)>) -> Seq<(Seq<char>, ValueModel)> {
    entry_models_upto(s, s.len() as int)
}

impl View for Value {
    type V = ValueModel;

    open spec fn view(&self) -> ValueModel {
        value_model(*self)
    }
}

/// The prefix models have one slot per value, each holding that value's model.
pub proof fn lemma_value_models_upto(s: Seq<Value>, n: int)
    requires
        0 <= n <= s.len(),
    ensures
        value_models_upto(s, n).len() == n,
        forall|i: int| 0 <= i < n ==> value_models_upto(s, n)[i] == value_model(s[i]),
    decreases n,
{
    if n > 0 {
        lemma_value_models_upto(s, n - 1);
    }
}

/// The prefix entry models have one slot per entry, pairing the key's
/// characters with the value's model.
pub proof fn lemma_entry_models_upto(s: Seq<(String, Value)>, n: int)
    requires
        0 <= n <= s.len(),
    ensures
        entry_models_upto(s, n).len() == n,
        forall|i: int|
            0 <= i < n ==> entry_models_upto(s, n)[i] == (s[i].0@, value_model(s[i].1)),
    decreases n,
{
    if n > 0 {
        lemma_entry_models_upto(s, n - 1);
    }
}

/// Whether a model mapping contains an entry under the given key.
pub open spec fn model_has_key(es: Seq<(Seq<char>, ValueModel)>, key: Seq<char>) -> bool {
    exists|i: int| 0 <= i < es.len() && es[i].0 == key
}

/// Whether the keys of a model mapping are pairwise distinct.
pub open spec fn model_keys_unique(es: Seq<(Seq<char>, ValueModel)>) -> bool {
    forall|i: int, j: int| 0 <= i < j < es.len() ==> es[i].0 != es[j].0
}

} // verus!

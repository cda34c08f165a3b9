//! The property-list value model: the closed set of variants in which
//! arbitrary glyph and sub-object "lib" metadata arrives.
//!
//! The loader hands libraries over as trees of these values; the converter
//! in [`crate::convert`] maps them onto the dynamic value model.  Two
//! variants are deliberately unsupported there: dates and UIDs have no
//! defined mapping, and conversion fails on them rather than guessing one.

use vstd::prelude::*;

use crate::reals::Real;

verus! {

broadcast use vstd::std_specs::vec::group_vec_axioms;

/// A property-list value, as attached to a glyph or one of its sub-objects.
#[derive(Debug, PartialEq)]
pub enum PlistValue {
    /// A text value.
    Str(String),
    /// A boolean value.
    Bool(bool),
    /// A real number.
    Real(Real),
    /// An integer.  The format's integers cover the union of the signed and
    /// unsigned 64-bit ranges, so they arrive in a wider carrier type.
    Int(i128),
    /// A byte blob.
    Bytes(Vec<u8>),
    /// An ordered list of values.
    Array(Vec<PlistValue>),
    /// A dictionary of key/value pairs, key-unique, insertion order kept.
    Dict(Vec<(String, PlistValue)>),
    /// A date.  Carried through the model but not convertible.
    Date,
    /// A unique object identifier.  Carried through but not convertible.
    Uid(u64),
}

/// The mathematical model of a [`PlistValue`].
#[verifier::ext_equal]
pub enum PlistModel {
    Str(Seq<char>),
    Bool(bool),
    Real(Real),
    Int(i128),
    Bytes(Seq<u8>),
    Array(Seq<PlistModel>),
    Dict(Seq<(Seq<char>, PlistModel)>),
    Date,
    Uid(u64),
}

/// The model of a property-list value, defined structurally.
pub open spec fn plist_model(v: PlistValue) -> PlistModel
    decreases v, 0int, 0int,
{
    match v {
        PlistValue::Str(s) => PlistModel::Str(s@),
        PlistValue::Bool(b) => PlistModel::Bool(b),
        PlistValue::Real(r) => PlistModel::Real(r),
        PlistValue::Int(i) => PlistModel::Int(i),
        PlistValue::Bytes(b) => PlistModel::Bytes(b@),
        PlistValue::Array(vs) => PlistModel::Array(plist_models_upto(vs@, vs@.len() as int)),
        PlistValue::Dict(es) => PlistModel::Dict(plist_entry_models_upto(es@, es@.len() as int)),
        PlistValue::Date => PlistModel::Date,
        PlistValue::Uid(u) => PlistModel::Uid(u),
    }
}

/// The models of the first `n` values of a sequence, in order.
pub open spec fn plist_models_upto(s: Seq<PlistValue>, n: int) -> Seq<PlistModel>
    recommends
        0 <= n <= s.len(),
    decreases s, 1int, n,
{
    if n <= 0 || n > s.len() {
        Seq::empty()
    } else {
        plist_models_upto(s, n - 1).push(plist_model(s[n - 1]))
    }
}

/// The models of the first `n` dictionary entries of a sequence, in order.
pub open spec fn plist_entry_models_upto(s: Seq<(String, PlistValue)>, n: int) -> Seq<
    (Seq<char>, PlistModel),
>
    recommends
        0 <= n <= s.len(),
    decreases s, 1int, n,
{
    if n <= 0 || n > s.len() {
        Seq::empty()
    } else {
        plist_entry_models_upto(s, n - 1).push((s[n - 1].0@, plist_model(s[n - 1].1)))
    }
}

/// The models of a whole sequence of property-list values.
pub open spec fn plist_models(s: Seq<PlistValue>) -> Seq<PlistModel> {
    plist_models_upto(s, s.len() as int)
}

/// The models of a whole sequence of dictionary entries.
pub open spec fn plist_entry_models(s: Seq<(String, PlistValue)>) -> Seq<
    (Seq<char>, PlistModel),
> {
    plist_entry_models_upto(s, s.len() as int)
}

impl View for PlistValue {
    type V = PlistModel;

    open spec fn view(&self) -> PlistModel {
        plist_model(*self)
    }
}

/// The prefix models have one slot per value, each holding that value's model.
pub proof fn lemma_plist_models_upto(s: Seq<PlistValue>, n: int)
    requires
        0 <= n <= s.len(),
    ensures
        plist_models_upto(s, n).len() == n,
        forall|i: int| 0 <= i < n ==> plist_models_upto(s, n)[i] == plist_model(s[i]),
    decreases n,
{
    if n > 0 {
        lemma_plist_models_upto(s, n - 1);
    }
}

/// The prefix entry models have one slot per entry, pairing the key's
/// characters with the value's model.
pub proof fn lemma_plist_entry_models_upto(s: Seq<(String, PlistValue)>, n: int)
    requires
        0 <= n <= s.len(),
    ensures
        plist_entry_models_upto(s, n).len() == n,
        forall|i: int|
            0 <= i < n ==> plist_entry_models_upto(s, n)[i] == (s[i].0@, plist_model(s[i].1)),
    decreases n,
{
    if n > 0 {
        lemma_plist_entry_models_upto(s, n - 1);
    }
}

/// Whether the keys of a model dictionary are pairwise distinct.
pub open spec fn plist_keys_unique(es: Seq<(Seq<char>, PlistModel)>) -> bool {
    forall|i: int, j: int| 0 <= i < j < es.len() ==> es[i].0 != es[j].0
}

/// Byte-for-byte copy of a byte vector.
pub fn clone_bytes(b: &Vec<u8>) -> (r: Vec<u8>)
    ensures
        r@ == b@,
{
    let mut r: Vec<u8> = Vec::new();
    let mut i: usize = 0;
    while i < b.len()
        invariant
            i <= b.len(),
            r@ == b@.take(i as int),
        decreases b.len() - i,
    {
        r.push(b[i]);
        proof {
            assert(r@ =~= b@.take(i + 1 as int));
        }
        i = i + 1;
    }
    proof {
        assert(b@.take(b@.len() as int) =~= b@);
    }
    r
}

/// A copy of a property-list value, equal to the original in the model.
#[verifier::loop_isolation(false)]
pub fn clone_plist_value(v: &PlistValue) -> (r: PlistValue)
    ensures
        r@ == v@,
    decreases *v,
{
    match v {
        PlistValue::Str(s) => PlistValue::Str(s.clone()),
        PlistValue::Bool(b) => PlistValue::Bool(*b),
        PlistValue::Real(x) => PlistValue::Real(*x),
        PlistValue::Int(i) => PlistValue::Int(*i),
        PlistValue::Bytes(b) => PlistValue::Bytes(clone_bytes(b)),
        PlistValue::Date => PlistValue::Date,
        PlistValue::Uid(u) => PlistValue::Uid(*u),
        PlistValue::Array(a) => {
            proof {
                lemma_plist_models_upto(a@, a@.len() as int);
            }
            let mut out: Vec<PlistValue> = Vec::new();
            let mut idx: usize = 0;
            while idx < a.len()
                invariant
                    idx <= a.len(),
                    out@.len() == idx,
                    forall|i: int| 0 <= i < idx ==> (#[trigger] out@[i])@ == a@[i]@,
                decreases a.len() - idx,
            {
                let elem = &a[idx];
                proof {
                    assert(decreases_to!(*a => a@[idx as int]));
                }
                out.push(clone_plist_value(elem));
                idx = idx + 1;
            }
            proof {
                lemma_plist_models_upto(out@, out@.len() as int);
                assert(plist_models_upto(out@, out@.len() as int) =~= plist_models_upto(
                    a@,
                    a@.len() as int,
                ));
            }
            PlistValue::Array(out)
        },
        PlistValue::Dict(es) => {
            proof {
                lemma_plist_entry_models_upto(es@, es@.len() as int);
            }
            let mut out: Vec<(String, PlistValue)> = Vec::new();
            let mut idx: usize = 0;
            while idx < es.len()
                invariant
                    idx <= es.len(),
                    out@.len() == idx,
                    forall|i: int|
                        0 <= i < idx ==> (#[trigger] out@[i]).0@ == es@[i].0@ && out@[i].1@
                            == es@[i].1@,
                decreases es.len() - idx,
            {
                let entry_key = es[idx].0.clone();
                let elem = &es[idx].1;
                proof {
                    assert(decreases_to!(*es => es@[idx as int]));
                }
                out.push((entry_key, clone_plist_value(elem)));
                idx = idx + 1;
            }
            proof {
                lemma_plist_entry_models_upto(out@, out@.len() as int);
                assert(plist_entry_models_upto(out@, out@.len() as int)
                    =~= plist_entry_models_upto(es@, es@.len() as int));
            }
            PlistValue::Dict(out)
        },
    }
}

/// A copy of a dictionary's entries, equal to the original in the model.
pub fn clone_plist_entries(es: &Vec<(String, PlistValue)>) -> (r: Vec<(String, PlistValue)>)
    ensures
        plist_entry_models(r@) == plist_entry_models(es@),
{
    let mut out: Vec<(String, PlistValue)> = Vec::new();
    let mut idx: usize = 0;
    while idx < es.len()
        invariant
            idx <= es.len(),
            out@.len() == idx,
            forall|i: int|
                0 <= i < idx ==> (#[trigger] out@[i]).0@ == es@[i].0@ && out@[i].1@ == es@[i].1@,
        decreases es.len() - idx,
    {
        let entry_key = es[idx].0.clone();
        out.push((entry_key, clone_plist_value(&es[idx].1)));
        idx = idx + 1;
    }
    proof {
        lemma_plist_entry_models_upto(out@, out@.len() as int);
        lemma_plist_entry_models_upto(es@, es@.len() as int);
        assert(plist_entry_models(out@) =~= plist_entry_models(es@));
    }
    out
}

} // verus!

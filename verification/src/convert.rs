//! The property-list value converter: maps an arbitrary property-list
//! value tree onto the dynamic value model, failing precisely on
//! unrepresentable inputs.
//!
//! Strings, booleans, reals and byte blobs map directly; arrays and
//! dictionaries map recursively, and a failure anywhere aborts the whole
//! conversion with no partial result.  An integer is given its signed
//! representation when it has one, its unsigned representation otherwise,
//! and is rejected when it has neither.  Dates and UIDs have no defined
//! mapping and are rejected.  The `key` threaded through every recursive
//! call is the originating top-level attribute name; it only labels the
//! error of a failure found deep inside a nested structure.

use vstd::prelude::*;

use crate::errors::{ConvertError, ConvertErrorModel};
use crate::pvalue::{
    clone_bytes, lemma_plist_entry_models_upto, lemma_plist_models_upto, plist_entry_models,
    plist_models, PlistModel, PlistValue,
};
use crate::value::{
    entry_models, lemma_entry_models_upto, lemma_value_models_upto, value_models_upto, Value,
    ValueModel,
};

verus! {

broadcast use vstd::std_specs::vec::group_vec_axioms;

/// The two ways a single property-list value can fail to convert.
pub enum Fault {
    /// An integer outside both 64-bit ranges.
    IntegerRange,
    /// A variant with no defined mapping (a date or a UID).
    Unhandled,
}

/// The error raised for a fault found under the given top-level key.
pub open spec fn fault_error(f: Fault, key: Seq<char>) -> ConvertErrorModel {
    match f {
        Fault::IntegerRange => ConvertErrorModel::UnconvertibleInteger(key),
        Fault::Unhandled => ConvertErrorModel::UnhandledFormat(key),
    }
}

/// Whether an integer has a signed 64-bit representation.
pub open spec fn fits_signed(i: i128) -> bool {
    -0x8000_0000_0000_0000 <= i <= 0x7fff_ffff_ffff_ffff
}

/// Whether an integer has an unsigned 64-bit representation.
pub open spec fn fits_unsigned(i: i128) -> bool {
    0 <= i <= 0xffff_ffff_ffff_ffff
}

/// Whether a property-list value converts without failure.
pub open spec fn convertible(v: PlistModel) -> bool
    decreases v, 0int, 0int,
{
    match v {
        PlistModel::Str(_) => true,
        PlistModel::Bool(_) => true,
        PlistModel::Real(_) => true,
        PlistModel::Int(i) => fits_signed(i) || fits_unsigned(i),
        PlistModel::Bytes(_) => true,
        PlistModel::Array(s) => seq_first_bad(s, 0) == s.len(),
        PlistModel::Dict(es) => dict_first_bad(es, 0) == es.len(),
        PlistModel::Date => false,
        PlistModel::Uid(_) => false,
    }
}

/// The index of the first unconvertible element of `s` at or after `i`,
/// or `s.len()` when every element from `i` on converts.
pub open spec fn seq_first_bad(s: Seq<PlistModel>, i: int) -> int
    recommends
        0 <= i <= s.len(),
    decreases s, 1int, s.len() - i,
{
    if i < 0 || i >= s.len() {
        s.len() as int
    } else if !convertible(s[i]) {
        i
    } else {
        seq_first_bad(s, i + 1)
    }
}

/// The index of the first entry of `es` at or after `i` whose value does
/// not convert, or `es.len()` when every value from `i` on converts.
pub open spec fn dict_first_bad(es: Seq<(Seq<char>, PlistModel)>, i: int) -> int
    recommends
        0 <= i <= es.len(),
    decreases es, 1int, es.len() - i,
{
    if i < 0 || i >= es.len() {
        es.len() as int
    } else if !convertible(es[i].1) {
        i
    } else {
        dict_first_bad(es, i + 1)
    }
}

/// The dynamic value a convertible property-list value maps to.
pub open spec fn converted(v: PlistModel) -> ValueModel
    recommends
        convertible(v),
    decreases v, 0int, 0int,
{
    match v {
        PlistModel::Str(s) => ValueModel::Str(s),
        PlistModel::Bool(b) => ValueModel::Bool(b),
        PlistModel::Real(r) => ValueModel::Real(r),
        PlistModel::Int(i) => if fits_signed(i) {
            ValueModel::Int(i as i64)
        } else {
            ValueModel::Uint(i as u64)
        },
        PlistModel::Bytes(b) => ValueModel::Bytes(b),
        PlistModel::Array(s) => ValueModel::Sequence(converted_seq_upto(s, s.len() as int)),
        PlistModel::Dict(es) => ValueModel::Mapping(converted_dict_upto(es, es.len() as int)),
        PlistModel::Date => arbitrary(),
        PlistModel::Uid(_) => arbitrary(),
    }
}

/// The conversions of the first `n` elements of `s`, in order.
pub open spec fn converted_seq_upto(s: Seq<PlistModel>, n: int) -> Seq<ValueModel>
    recommends
        0 <= n <= s.len(),
    decreases s, 1int, n,
{
    if n <= 0 || n > s.len() {
        Seq::empty()
    } else {
        converted_seq_upto(s, n - 1).push(converted(s[n - 1]))
    }
}

/// The conversions of the first `n` entries of `es`, in order, keys kept
/// verbatim.
pub open spec fn converted_dict_upto(es: Seq<(Seq<char>, PlistModel)>, n: int) -> Seq<
    (Seq<char>, ValueModel),
>
    recommends
        0 <= n <= es.len(),
    decreases es, 1int, n,
{
    if n <= 0 || n > es.len() {
        Seq::empty()
    } else {
        converted_dict_upto(es, n - 1).push((es[n - 1].0, converted(es[n - 1].1)))
    }
}

/// The fault of an unconvertible property-list value: its own fault for a
/// leaf, the first failing element's fault for an array or dictionary.
pub open spec fn fault(v: PlistModel) -> Fault
    recommends
        !convertible(v),
    decreases v,
{
    match v {
        PlistModel::Int(_) => Fault::IntegerRange,
        PlistModel::Date => Fault::Unhandled,
        PlistModel::Uid(_) => Fault::Unhandled,
        PlistModel::Array(s) => {
            let k = seq_first_bad(s, 0);
            if 0 <= k < s.len() {
                fault(s[k])
            } else {
                arbitrary()
            }
        },
        PlistModel::Dict(es) => {
            let k = dict_first_bad(es, 0);
            if 0 <= k < es.len() {
                fault(es[k].1)
            } else {
                arbitrary()
            }
        },
        _ => arbitrary(),
    }
}

/// Whether every entry of a dictionary-shaped entry sequence converts.
pub open spec fn entries_convertible(m: Seq<(Seq<char>, PlistModel)>) -> bool {
    dict_first_bad(m, 0) == m.len()
}

/// The conversions of a whole entry sequence.
pub open spec fn entries_converted(m: Seq<(Seq<char>, PlistModel)>) -> Seq<
    (Seq<char>, ValueModel),
> {
    converted_dict_upto(m, m.len() as int)
}

/// The error of the first failing entry, labelled with that entry's own key.
pub open spec fn entries_fault(m: Seq<(Seq<char>, PlistModel)>) -> ConvertErrorModel
    recommends
        !entries_convertible(m),
{
    let k = dict_first_bad(m, 0);
    fault_error(fault(m[k].1), m[k].0)
}

/// When everything before `k` converts and `s[k]` does not, `k` is exactly
/// the first failing index.
pub proof fn lemma_seq_first_bad_is(s: Seq<PlistModel>, i: int, k: int)
    requires
        0 <= i <= k < s.len(),
        forall|j: int| i <= j < k ==> convertible(#[trigger] s[j]),
        !convertible(s[k]),
    ensures
        seq_first_bad(s, i) == k,
    decreases k - i,
{
    if i < k {
        lemma_seq_first_bad_is(s, i + 1, k);
    }
}

/// When every value before `k` converts and the one at `k` does not, `k`
/// is exactly the first failing index.
pub proof fn lemma_dict_first_bad_is(es: Seq<(Seq<char>, PlistModel)>, i: int, k: int)
    requires
        0 <= i <= k < es.len(),
        forall|j: int| i <= j < k ==> convertible(#[trigger] es[j].1),
        !convertible(es[k].1),
    ensures
        dict_first_bad(es, i) == k,
    decreases k - i,
{
    if i < k {
        lemma_dict_first_bad_is(es, i + 1, k);
    }
}

/// When every element converts, the first failing index is the length.
pub proof fn lemma_seq_first_bad_none(s: Seq<PlistModel>, i: int)
    requires
        0 <= i <= s.len(),
        forall|j: int| i <= j < s.len() ==> convertible(#[trigger] s[j]),
    ensures
        seq_first_bad(s, i) == s.len(),
    decreases s.len() - i,
{
    if i < s.len() {
        lemma_seq_first_bad_none(s, i + 1);
    }
}

/// When every value converts, the first failing index is the length.
pub proof fn lemma_dict_first_bad_none(es: Seq<(Seq<char>, PlistModel)>, i: int)
    requires
        0 <= i <= es.len(),
        forall|j: int| i <= j < es.len() ==> convertible(#[trigger] es[j].1),
    ensures
        dict_first_bad(es, i) == es.len(),
    decreases es.len() - i,
{
    if i < es.len() {
        lemma_dict_first_bad_none(es, i + 1);
    }
}

/// The prefix conversions have one slot per element.
pub proof fn lemma_converted_seq_upto(s: Seq<PlistModel>, n: int)
    requires
        0 <= n <= s.len(),
    ensures
        converted_seq_upto(s, n).len() == n,
        forall|i: int| 0 <= i < n ==> converted_seq_upto(s, n)[i] == converted(s[i]),
    decreases n,
{
    if n > 0 {
        lemma_converted_seq_upto(s, n - 1);
    }
}

/// The prefix entry conversions have one slot per entry.
pub proof fn lemma_converted_dict_upto(es: Seq<(Seq<char>, PlistModel)>, n: int)
    requires
        0 <= n <= es.len(),
    ensures
        converted_dict_upto(es, n).len() == n,
        forall|i: int|
            0 <= i < n ==> converted_dict_upto(es, n)[i] == (es[i].0, converted(es[i].1)),
    decreases n,
{
    if n > 0 {
        lemma_converted_dict_upto(es, n - 1);
    }
}

/// Integer range law: an integer inside `[-2^63, 2^64 - 1]` converts —
/// to its signed representation when it has one, to its unsigned
/// representation otherwise — and an integer outside that range fails
/// with the integer-range fault.
pub proof fn lemma_integer_conversion(i: i128)
    ensures
        fits_signed(i) ==> convertible(PlistModel::Int(i)) && converted(PlistModel::Int(i))
            == ValueModel::Int(i as i64),
        !fits_signed(i) && fits_unsigned(i) ==> convertible(PlistModel::Int(i)) && converted(
            PlistModel::Int(i),
        ) == ValueModel::Uint(i as u64),
        !fits_signed(i) && !fits_unsigned(i) ==> !convertible(PlistModel::Int(i)) && fault(
            PlistModel::Int(i),
        ) == Fault::IntegerRange,
{
}

/// Converts one property-list value under the given top-level key.
///
/// A convertible value yields exactly its converted model; an
/// unconvertible one yields the error of its first fault, in traversal
/// order, labelled with `key`.
#[verifier::loop_isolation(false)]
pub fn convert_value(key: &str, v: &PlistValue) -> (r: Result<Value, ConvertError>)
    ensures
        convertible(v@) ==> (r matches Ok(out) && out@ == converted(v@)),
        !convertible(v@) ==> (r matches Err(e) && e@ == fault_error(fault(v@), key@)),
    decreases *v,
{
    match v {
        PlistValue::Str(s) => Ok(Value::Str(s.clone())),
        PlistValue::Bool(b) => Ok(Value::Bool(*b)),
        PlistValue::Real(x) => Ok(Value::Real(*x)),
        PlistValue::Int(i) => {
            if *i >= i64::MIN as i128 && *i <= i64::MAX as i128 {
                Ok(Value::Int(*i as i64))
            } else if *i >= 0 && *i <= u64::MAX as i128 {
                Ok(Value::Uint(*i as u64))
            } else {
                Err(ConvertError::UnconvertibleInteger(key.to_owned()))
            }
        },
        PlistValue::Bytes(b) => Ok(Value::Bytes(clone_bytes(b))),
        PlistValue::Date => Err(ConvertError::UnhandledFormat(key.to_owned())),
        PlistValue::Uid(_) => Err(ConvertError::UnhandledFormat(key.to_owned())),
        PlistValue::Array(a) => {
            let ghost ms: Seq<PlistModel> = plist_models(a@);
            proof {
                lemma_plist_models_upto(a@, a@.len() as int);
            }
            let mut out: Vec<Value> = Vec::new();
            let mut idx: usize = 0;
            while idx < a.len()
                invariant
                    idx <= a.len(),
                    ms == plist_models(a@),
                    ms.len() == a@.len(),
                    forall|i: int| 0 <= i < ms.len() ==> #[trigger] ms[i] == a@[i]@,
                    out@.len() == idx,
                    forall|i: int| 0 <= i < idx ==> convertible(#[trigger] ms[i]),
                    forall|i: int| 0 <= i < idx ==> (#[trigger] out@[i])@ == converted(ms[i]),
                decreases a.len() - idx,
            {
                let elem = &a[idx];
                proof {
                    assert(decreases_to!(*a => a@[idx as int]));
                    assert(*v == PlistValue::Array(*a));
                    assert(decreases_to!(*v => *a));
                    assert(decreases_to!(*v => *elem));
                }
                match convert_value(key, elem) {
                    Ok(cv) => {
                        out.push(cv);
                    },
                    Err(e) => {
                        proof {
                            assert(ms[idx as int] == a@[idx as int]@);
                            assert(!convertible(ms[idx as int]));
                            lemma_seq_first_bad_is(ms, 0, idx as int);
                            assert(v@ == PlistModel::Array(ms));
                            assert(!convertible(v@));
                            assert(fault(v@) == fault(ms[idx as int]));
                        }
                        return Err(e);
                    },
                }
                idx = idx + 1;
            }
            proof {
                lemma_seq_first_bad_none(ms, 0);
                lemma_converted_seq_upto(ms, ms.len() as int);
                lemma_value_models_upto(out@, out@.len() as int);
                assert(value_models_upto(out@, out@.len() as int) =~= converted_seq_upto(
                    ms,
                    ms.len() as int,
                ));
            }
            Ok(Value::Sequence(out))
        },
        PlistValue::Dict(es) => {
            let ghost ms: Seq<(Seq<char>, PlistModel)> = plist_entry_models(es@);
            proof {
                lemma_plist_entry_models_upto(es@, es@.len() as int);
            }
            let mut out: Vec<(String, Value)> = Vec::new();
            let mut idx: usize = 0;
            while idx < es.len()
                invariant
                    idx <= es.len(),
                    ms == plist_entry_models(es@),
                    ms.len() == es@.len(),
                    forall|i: int|
                        0 <= i < ms.len() ==> #[trigger] ms[i] == (es@[i].0@, es@[i].1@),
                    out@.len() == idx,
                    forall|i: int| 0 <= i < idx ==> convertible(#[trigger] ms[i].1),
                    forall|i: int|
                        0 <= i < idx ==> (#[trigger] out@[i]).0@ == ms[i].0 && out@[i].1@
                            == converted(ms[i].1),
                decreases es.len() - idx,
            {
                let entry_key = es[idx].0.clone();
                let elem = &es[idx].1;
                proof {
                    assert(decreases_to!(*es => es@[idx as int]));
                    assert(*v == PlistValue::Dict(*es));
                    assert(decreases_to!(*v => *es));
                    assert(decreases_to!(es@[idx as int] => es@[idx as int].1));
                    assert(decreases_to!(*v => *elem));
                }
                match convert_value(key, elem) {
                    Ok(cv) => {
                        out.push((entry_key, cv));
                    },
                    Err(e) => {
                        proof {
                            assert(ms[idx as int].1 == es@[idx as int].1@);
                            assert(!convertible(ms[idx as int].1));
                            lemma_dict_first_bad_is(ms, 0, idx as int);
                            assert(v@ == PlistModel::Dict(ms));
                            assert(!convertible(v@));
                            assert(fault(v@) == fault(ms[idx as int].1));
                        }
                        return Err(e);
                    },
                }
                idx = idx + 1;
            }
            proof {
                lemma_dict_first_bad_none(ms, 0);
                lemma_converted_dict_upto(ms, ms.len() as int);
                lemma_entry_models_upto(out@, out@.len() as int);
                assert(crate::value::entry_models_upto(out@, out@.len() as int)
                    =~= converted_dict_upto(ms, ms.len() as int));
            }
            Ok(Value::Mapping(out))
        },
    }
}

/// Converts a library's entries one by one, each under its own key.
///
/// When every entry's value converts, the result maps each key to its
/// converted value, in order; otherwise the error of the first failing
/// entry, labelled with that entry's own key, is returned.
pub fn convert_entries(es: &Vec<(String, PlistValue)>) -> (r: Result<
    Vec<(String, Value)>,
    ConvertError,
>)
    ensures
        entries_convertible(plist_entry_models(es@)) ==> (r matches Ok(out) && entry_models(
            out@,
        ) == entries_converted(plist_entry_models(es@))),
        !entries_convertible(plist_entry_models(es@)) ==> (r matches Err(e) && e@
            == entries_fault(plist_entry_models(es@))),
{
    let ghost ms: Seq<(Seq<char>, PlistModel)> = plist_entry_models(es@);
    proof {
        lemma_plist_entry_models_upto(es@, es@.len() as int);
    }
    let mut out: Vec<(String, Value)> = Vec::new();
    let mut idx: usize = 0;
    while idx < es.len()
        invariant
            idx <= es.len(),
            ms == plist_entry_models(es@),
            ms.len() == es@.len(),
            forall|i: int| 0 <= i < ms.len() ==> #[trigger] ms[i] == (es@[i].0@, es@[i].1@),
            out@.len() == idx,
            forall|i: int| 0 <= i < idx ==> convertible(#[trigger] ms[i].1),
            forall|i: int|
                0 <= i < idx ==> (#[trigger] out@[i]).0@ == ms[i].0 && out@[i].1@ == converted(
                    ms[i].1,
                ),
        decreases es.len() - idx,
    {
        let entry_key = es[idx].0.clone();
        match convert_value(entry_key.as_str(), &es[idx].1) {
            Ok(cv) => {
                out.push((entry_key, cv));
            },
            Err(e) => {
                proof {
                    assert(ms[idx as int].1 == es@[idx as int].1@);
                    assert(!convertible(ms[idx as int].1));
                    lemma_dict_first_bad_is(ms, 0, idx as int);
                }
                return Err(e);
            },
        }
        idx = idx + 1;
    }
    proof {
        lemma_dict_first_bad_none(ms, 0);
        lemma_converted_dict_upto(ms, ms.len() as int);
        lemma_entry_models_upto(out@, out@.len() as int);
        assert(crate::value::entry_models_upto(out@, out@.len() as int) =~= converted_dict_upto(
            ms,
            ms.len() as int,
        ));
    }
    Ok(out)
}

} // verus!

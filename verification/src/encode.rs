//! The binary encoding adapter: serializes a dynamic value into a
//! self-describing, platform-independent byte stream.
//!
//! The stream opens with a fixed magic-and-version header, then one
//! tagged record per value: every integer field is written big-endian
//! at a fixed width, characters as their Unicode scalar values, and
//! every sequence, mapping and string carries an explicit length, so
//! the byte grammar is order-preserving and independent of the host's
//! pointer width and byte order.  This step is pure serialization: the
//! bytes are exactly [`encoded_doc`] of the value's model.

use vstd::prelude::*;

use crate::value::{entry_models, lemma_entry_models_upto, lemma_value_models_upto, Value,
    ValueModel,
};
use vstd::string::StrSliceExecFns;

verus! {

broadcast use vstd::std_specs::vec::group_vec_axioms;

/// The record tag of a string value.
pub const TAG_STR: u8 = 1;

/// The record tag of a signed integer value.
pub const TAG_INT: u8 = 2;

/// The record tag of an unsigned integer value.
pub const TAG_UINT: u8 = 3;

/// The record tag of a real value.
pub const TAG_REAL: u8 = 4;

/// The record tag of a boolean value.
pub const TAG_BOOL: u8 = 5;

/// The record tag of a byte-blob value.
pub const TAG_BYTES: u8 = 6;

/// The record tag of a sequence value.
pub const TAG_SEQ: u8 = 7;

/// The record tag of a mapping value.
pub const TAG_MAP: u8 = 8;

/// The stream header: three magic bytes naming the format, then a
/// format version byte.
pub open spec fn header_bytes() -> Seq<u8> {
    seq![0x70u8, 0x64u8, 0x76u8, 0x01u8]
}

/// The eight big-endian bytes of a 64-bit value.
pub open spec fn be_bytes64(x: u64) -> Seq<u8> {
    seq![
        (x >> 56) as u8,
        (x >> 48) as u8,
        (x >> 40) as u8,
        (x >> 32) as u8,
        (x >> 24) as u8,
        (x >> 16) as u8,
        (x >> 8) as u8,
        x as u8,
    ]
}

/// The four big-endian bytes of a 32-bit value.
pub open spec fn be_bytes32(x: u32) -> Seq<u8> {
    seq![(x >> 24) as u8, (x >> 16) as u8, (x >> 8) as u8, x as u8]
}

/// The first `n` characters of a text, each as its Unicode scalar value
/// in four big-endian bytes.
pub open spec fn text_bytes_upto(s: Seq<char>, n: int) -> Seq<u8>
    recommends
        0 <= n <= s.len(),
    decreases n,
{
    if n <= 0 || n > s.len() {
        Seq::empty()
    } else {
        text_bytes_upto(s, n - 1) + be_bytes32(s[n - 1] as u32)
    }
}

/// A length-prefixed text record body.
pub open spec fn text_bytes(s: Seq<char>) -> Seq<u8> {
    be_bytes64(s.len() as u64) + text_bytes_upto(s, s.len() as int)
}

/// The encoding of one dynamic value: a tag byte, then the value's
/// fixed-width or length-prefixed body.
pub open spec fn encoded(v: ValueModel) -> Seq<u8>
    decreases v, 0int, 0int,
{
    match v {
        ValueModel::Str(s) => seq![TAG_STR] + text_bytes(s),
        ValueModel::Int(i) => seq![TAG_INT] + be_bytes64(i as u64),
        ValueModel::Uint(u) => seq![TAG_UINT] + be_bytes64(u),
        ValueModel::Real(r) => seq![TAG_REAL] + be_bytes32(r.bits),
        ValueModel::Bool(b) => seq![TAG_BOOL, if b { 1u8 } else { 0u8 }],
        ValueModel::Bytes(b) => seq![TAG_BYTES] + be_bytes64(b.len() as u64) + b,
        ValueModel::Sequence(vs) => seq![TAG_SEQ] + be_bytes64(vs.len() as u64)
            + encoded_seq_upto(vs, vs.len() as int),
        ValueModel::Mapping(es) => seq![TAG_MAP] + be_bytes64(es.len() as u64)
            + encoded_entries_upto(es, es.len() as int),
    }
}

/// The encodings of the first `n` values, concatenated.
pub open spec fn encoded_seq_upto(s: Seq<ValueModel>, n: int) -> Seq<u8>
    recommends
        0 <= n <= s.len(),
    decreases s, 1int, n,
{
    if n <= 0 || n > s.len() {
        Seq::empty()
    } else {
        encoded_seq_upto(s, n - 1) + encoded(s[n - 1])
    }
}

/// The encodings of the first `n` mapping entries, concatenated: each a
/// length-prefixed key text followed by the value's encoding.
pub open spec fn encoded_entries_upto(es: Seq<(Seq<char>, ValueModel)>, n: int) -> Seq<u8>
    recommends
        0 <= n <= es.len(),
    decreases es, 1int, n,
{
    if n <= 0 || n > es.len() {
        Seq::empty()
    } else {
        encoded_entries_upto(es, n - 1) + text_bytes(es[n - 1].0) + encoded(es[n - 1].1)
    }
}

/// A whole encoded document: the header, then the one value.
pub open spec fn encoded_doc(v: ValueModel) -> Seq<u8> {
    header_bytes() + encoded(v)
}

/// Appends the eight big-endian bytes of a 64-bit value.
fn push_u64_be(out: &mut Vec<u8>, x: u64)
    ensures
        final(out)@ == old(out)@ + be_bytes64(x),
{
    out.push((x >> 56) as u8);
    out.push((x >> 48) as u8);
    out.push((x >> 40) as u8);
    out.push((x >> 32) as u8);
    out.push((x >> 24) as u8);
    out.push((x >> 16) as u8);
    out.push((x >> 8) as u8);
    out.push(x as u8);
    proof {
        assert(out@ =~= old(out)@ + be_bytes64(x));
    }
}

/// Appends the four big-endian bytes of a 32-bit value.
fn push_u32_be(out: &mut Vec<u8>, x: u32)
    ensures
        final(out)@ == old(out)@ + be_bytes32(x),
{
    out.push((x >> 24) as u8);
    out.push((x >> 16) as u8);
    out.push((x >> 8) as u8);
    out.push(x as u8);
    proof {
        assert(out@ =~= old(out)@ + be_bytes32(x));
    }
}

/// Appends a length-prefixed text record body.
#[verifier::loop_isolation(false)]
fn push_text(out: &mut Vec<u8>, s: &str)
    ensures
        final(out)@ == old(out)@ + text_bytes(s@),
{
    let n = s.unicode_len();
    push_u64_be(out, n as u64);
    let ghost mid = out@;
    let mut i: usize = 0;
    while i < n
        invariant
            i <= n,
            out@ =~= mid + text_bytes_upto(s@, i as int),
        decreases n - i,
    {
        let c = s.get_char(i);
        push_u32_be(out, c as u32);
        proof {
            assert(out@ =~= mid + text_bytes_upto(s@, i + 1));
        }
        i = i + 1;
    }
    proof {
        assert(out@ =~= old(out)@ + text_bytes(s@));
    }
}

/// Appends the encoding of one value.
#[verifier::loop_isolation(false)]
fn push_value(out: &mut Vec<u8>, v: &Value)
    ensures
        final(out)@ == old(out)@ + encoded(v@),
    decreases *v,
{
    match v {
        Value::Str(s) => {
            out.push(TAG_STR);
            push_text(out, s.as_str());
            proof {
                assert(out@ =~= old(out)@ + encoded(v@));
            }
        },
        Value::Int(i) => {
            out.push(TAG_INT);
            push_u64_be(out, *i as u64);
            proof {
                assert(out@ =~= old(out)@ + encoded(v@));
            }
        },
        Value::Uint(u) => {
            out.push(TAG_UINT);
            push_u64_be(out, *u);
            proof {
                assert(out@ =~= old(out)@ + encoded(v@));
            }
        },
        Value::Real(r) => {
            out.push(TAG_REAL);
            push_u32_be(out, r.bits);
            proof {
                assert(out@ =~= old(out)@ + encoded(v@));
            }
        },
        Value::Bool(b) => {
            out.push(TAG_BOOL);
            if *b {
                out.push(1);
            } else {
                out.push(0);
            }
            proof {
                assert(out@ =~= old(out)@ + encoded(v@));
            }
        },
        Value::Bytes(b) => {
            out.push(TAG_BYTES);
            push_u64_be(out, b.len() as u64);
            let ghost mid = out@;
            let mut i: usize = 0;
            while i < b.len()
                invariant
                    i <= b.len(),
                    out@ =~= mid + b@.take(i as int),
                decreases b.len() - i,
            {
                out.push(b[i]);
                proof {
                    assert(out@ =~= mid + b@.take(i + 1));
                }
                i = i + 1;
            }
            proof {
                assert(b@.take(b@.len() as int) =~= b@);
                assert(out@ =~= old(out)@ + encoded(v@));
            }
        },
        Value::Sequence(vs) => {
            out.push(TAG_SEQ);
            push_u64_be(out, vs.len() as u64);
            let ghost mid = out@;
            let ghost ms = crate::value::value_models(vs@);
            proof {
                lemma_value_models_upto(vs@, vs@.len() as int);
            }
            let mut i: usize = 0;
            while i < vs.len()
                invariant
                    i <= vs.len(),
                    out@ =~= mid + encoded_seq_upto(ms, i as int),
                decreases vs.len() - i,
            {
                let elem = &vs[i];
                proof {
                    assert(decreases_to!(*vs => vs@[i as int]));
                }
                push_value(out, elem);
                proof {
                    assert(out@ =~= mid + encoded_seq_upto(ms, i + 1));
                }
                i = i + 1;
            }
            proof {
                assert(out@ =~= old(out)@ + encoded(v@));
            }
        },
        Value::Mapping(es) => {
            out.push(TAG_MAP);
            push_u64_be(out, es.len() as u64);
            let ghost mid = out@;
            let ghost ms = entry_models(es@);
            proof {
                lemma_entry_models_upto(es@, es@.len() as int);
            }
            let mut i: usize = 0;
            while i < es.len()
                invariant
                    i <= es.len(),
                    out@ =~= mid + encoded_entries_upto(ms, i as int),
                decreases es.len() - i,
            {
                push_text(out, es[i].0.as_str());
                let elem = &es[i].1;
                proof {
                    assert(decreases_to!(*es => es@[i as int]));
                }
                push_value(out, elem);
                proof {
                    assert(out@ =~= mid + encoded_entries_upto(ms, i + 1));
                }
                i = i + 1;
            }
            proof {
                assert(out@ =~= old(out)@ + encoded(v@));
            }
        },
    }
}

/// Encodes one dynamic value as a self-describing byte stream: the
/// magic-and-version header, then the value's tagged records.
pub fn encode(v: &Value) -> (r: Vec<u8>)
    ensures
        r@ == encoded_doc(v@),
{
    let mut out: Vec<u8> = Vec::new();
    out.push(0x70);
    out.push(0x64);
    out.push(0x76);
    out.push(0x01);
    proof {
        assert(out@ =~= header_bytes());
    }
    push_value(&mut out, v);
    out
}


/// Whether every text, byte blob, sequence and mapping in the value is
/// shorter than two to the sixty-fourth, so that its length survives
/// the 64-bit length prefix.  Every value a program can build is
/// bounded; the predicate only matters for the injectivity law below.
pub open spec fn bounded(v: ValueModel) -> bool
    decreases v, 0int, 0int,
{
    match v {
        ValueModel::Str(s) => s.len() < 0x1_0000_0000_0000_0000,
        ValueModel::Int(_) => true,
        ValueModel::Uint(_) => true,
        ValueModel::Real(_) => true,
        ValueModel::Bool(_) => true,
        ValueModel::Bytes(b) => b.len() < 0x1_0000_0000_0000_0000,
        ValueModel::Sequence(vs) => vs.len() < 0x1_0000_0000_0000_0000 && seq_bounded_upto(
            vs,
            vs.len() as int,
        ),
        ValueModel::Mapping(es) => es.len() < 0x1_0000_0000_0000_0000 && entries_bounded_upto(
            es,
            es.len() as int,
        ),
    }
}

/// Whether the first `n` values of a sequence are bounded.
pub open spec fn seq_bounded_upto(s: Seq<ValueModel>, n: int) -> bool
    recommends
        0 <= n <= s.len(),
    decreases s, 1int, n,
{
    if n <= 0 || n > s.len() {
        true
    } else {
        seq_bounded_upto(s, n - 1) && bounded(s[n - 1])
    }
}

/// Whether the first `n` mapping entries have bounded keys and values.
pub open spec fn entries_bounded_upto(es: Seq<(Seq<char>, ValueModel)>, n: int) -> bool
    recommends
        0 <= n <= es.len(),
    decreases es, 1int, n,
{
    if n <= 0 || n > es.len() {
        true
    } else {
        entries_bounded_upto(es, n - 1) && es[n - 1].0.len() < 0x1_0000_0000_0000_0000
            && bounded(es[n - 1].1)
    }
}

/// A bounded prefix is bounded pointwise.
pub proof fn lemma_seq_bounded_upto(s: Seq<ValueModel>, n: int)
    requires
        0 <= n <= s.len(),
        seq_bounded_upto(s, n),
    ensures
        forall|i: int| 0 <= i < n ==> bounded(#[trigger] s[i]),
    decreases n,
{
    if n > 0 {
        lemma_seq_bounded_upto(s, n - 1);
    }
}

/// A bounded entry prefix is bounded pointwise.
pub proof fn lemma_entries_bounded_upto(es: Seq<(Seq<char>, ValueModel)>, n: int)
    requires
        0 <= n <= es.len(),
        entries_bounded_upto(es, n),
    ensures
        forall|i: int|
            0 <= i < n ==> (#[trigger] es[i]).0.len() < 0x1_0000_0000_0000_0000 && bounded(
                es[i].1,
            ),
    decreases n,
{
    if n > 0 {
        lemma_entries_bounded_upto(es, n - 1);
    }
}

/// Equal eight-byte big-endian spellings come from equal values.
proof fn lemma_be64_injective(x: u64, y: u64)
    requires
        be_bytes64(x) == be_bytes64(y),
    ensures
        x == y,
{
    assert((x >> 56) as u8 == (y >> 56) as u8 && (x >> 48) as u8 == (y >> 48) as u8 && (x >> 40)
        as u8 == (y >> 40) as u8 && (x >> 32) as u8 == (y >> 32) as u8 && (x >> 24) as u8 == (y
        >> 24) as u8 && (x >> 16) as u8 == (y >> 16) as u8 && (x >> 8) as u8 == (y >> 8) as u8
        && x as u8 == y as u8) by {
        assert(be_bytes64(x)[0] == be_bytes64(y)[0]);
        assert(be_bytes64(x)[1] == be_bytes64(y)[1]);
        assert(be_bytes64(x)[2] == be_bytes64(y)[2]);
        assert(be_bytes64(x)[3] == be_bytes64(y)[3]);
        assert(be_bytes64(x)[4] == be_bytes64(y)[4]);
        assert(be_bytes64(x)[5] == be_bytes64(y)[5]);
        assert(be_bytes64(x)[6] == be_bytes64(y)[6]);
        assert(be_bytes64(x)[7] == be_bytes64(y)[7]);
    }
    assert(x == y) by (bit_vector)
        requires
            (x >> 56) as u8 == (y >> 56) as u8,
            (x >> 48) as u8 == (y >> 48) as u8,
            (x >> 40) as u8 == (y >> 40) as u8,
            (x >> 32) as u8 == (y >> 32) as u8,
            (x >> 24) as u8 == (y >> 24) as u8,
            (x >> 16) as u8 == (y >> 16) as u8,
            (x >> 8) as u8 == (y >> 8) as u8,
            x as u8 == y as u8,
    ;
}

/// Characters with equal scalar values are equal.
proof fn lemma_char_cast_injective(a: char, b: char)
    requires
        a as u32 == b as u32,
    ensures
        a == b,
{
}

/// Equal four-byte big-endian spellings come from equal values.
proof fn lemma_be32_injective(x: u32, y: u32)
    requires
        be_bytes32(x) == be_bytes32(y),
    ensures
        x == y,
{
    assert((x >> 24) as u8 == (y >> 24) as u8 && (x >> 16) as u8 == (y >> 16) as u8 && (x >> 8)
        as u8 == (y >> 8) as u8 && x as u8 == y as u8) by {
        assert(be_bytes32(x)[0] == be_bytes32(y)[0]);
        assert(be_bytes32(x)[1] == be_bytes32(y)[1]);
        assert(be_bytes32(x)[2] == be_bytes32(y)[2]);
        assert(be_bytes32(x)[3] == be_bytes32(y)[3]);
    }
    assert(x == y) by (bit_vector)
        requires
            (x >> 24) as u8 == (y >> 24) as u8,
            (x >> 16) as u8 == (y >> 16) as u8,
            (x >> 8) as u8 == (y >> 8) as u8,
            x as u8 == y as u8,
    ;
}

/// Concatenations with equally long heads split equally.
proof fn lemma_split_eq(a: Seq<u8>, b: Seq<u8>, c: Seq<u8>, d: Seq<u8>)
    requires
        a + b == c + d,
        a.len() == c.len(),
    ensures
        a == c,
        b == d,
{
    assert forall|i: int| 0 <= i < a.len() implies a[i] == c[i] by {
        assert((a + b)[i] == a[i]);
        assert((c + d)[i] == c[i]);
    }
    assert(a =~= c);
    assert(b.len() == d.len()) by {
        assert((a + b).len() == a.len() + b.len());
        assert((c + d).len() == c.len() + d.len());
    }
    assert forall|i: int| 0 <= i < b.len() implies b[i] == d[i] by {
        assert((a + b)[a.len() + i] == b[i]);
        assert((c + d)[c.len() + i] == d[i]);
    }
    assert(b =~= d);
}

/// The length of an encoded text prefix: four bytes per character.
proof fn lemma_text_upto_len(s: Seq<char>, n: int)
    requires
        0 <= n <= s.len(),
    ensures
        text_bytes_upto(s, n).len() == 4 * n,
    decreases n,
{
    if n > 0 {
        lemma_text_upto_len(s, n - 1);
    }
}

/// Equal encoded text prefixes spell equal characters.
proof fn lemma_text_upto_injective(x: Seq<char>, y: Seq<char>, n: int)
    requires
        0 <= n <= x.len(),
        n <= y.len(),
        text_bytes_upto(x, n) == text_bytes_upto(y, n),
    ensures
        forall|j: int| 0 <= j < n ==> x[j] == y[j],
    decreases n,
{
    if n > 0 {
        lemma_text_upto_len(x, n - 1);
        lemma_text_upto_len(y, n - 1);
        lemma_split_eq(
            text_bytes_upto(x, n - 1),
            be_bytes32(x[n - 1] as u32),
            text_bytes_upto(y, n - 1),
            be_bytes32(y[n - 1] as u32),
        );
        assert(text_bytes_upto(x, n - 1) + be_bytes32(x[n - 1] as u32) == text_bytes_upto(
            y,
            n - 1,
        ) + be_bytes32(y[n - 1] as u32));
        assert(be_bytes32(x[n - 1] as u32) == be_bytes32(y[n - 1] as u32));
        lemma_be32_injective(x[n - 1] as u32, y[n - 1] as u32);
        assert(x[n - 1] as u32 == y[n - 1] as u32);
        lemma_char_cast_injective(x[n - 1], y[n - 1]);
        assert(x[n - 1] == y[n - 1]);
        lemma_text_upto_injective(x, y, n - 1);
        assert forall|j: int| 0 <= j < n implies x[j] == y[j] by {
            if j < n - 1 {
                assert(x[j] == y[j]);
            }
        }
    }
}

/// A length-prefixed text block is self-delimiting: equal streams that
/// both start with a text block carry equal texts and equal remainders.
proof fn lemma_text_block_self_delimiting(x: Seq<char>, y: Seq<char>, r1: Seq<u8>, r2: Seq<u8>)
    requires
        x.len() < 0x1_0000_0000_0000_0000,
        y.len() < 0x1_0000_0000_0000_0000,
        text_bytes(x) + r1 == text_bytes(y) + r2,
    ensures
        x == y,
        r1 == r2,
{
    let tx = text_bytes_upto(x, x.len() as int);
    let ty = text_bytes_upto(y, y.len() as int);
    assert(be_bytes64(x.len() as u64) + (tx + r1) =~= text_bytes(x) + r1);
    assert(be_bytes64(y.len() as u64) + (ty + r2) =~= text_bytes(y) + r2);
    lemma_split_eq(be_bytes64(x.len() as u64), tx + r1, be_bytes64(y.len() as u64), ty + r2);
    lemma_be64_injective(x.len() as u64, y.len() as u64);
    assert(x.len() == y.len());
    lemma_text_upto_len(x, x.len() as int);
    lemma_text_upto_len(y, y.len() as int);
    lemma_split_eq(tx, r1, ty, r2);
    lemma_text_upto_injective(x, y, x.len() as int);
    assert(x =~= y);
}

/// The encodings of the values from `i` on, concatenated.
spec fn encoded_seq_from(s: Seq<ValueModel>, i: int) -> Seq<u8>
    recommends
        0 <= i <= s.len(),
    decreases s.len() - i,
{
    if i < 0 || i >= s.len() {
        Seq::empty()
    } else {
        encoded(s[i]) + encoded_seq_from(s, i + 1)
    }
}

/// The encodings of the mapping entries from `i` on, concatenated.
spec fn encoded_entries_from(es: Seq<(Seq<char>, ValueModel)>, i: int) -> Seq<u8>
    recommends
        0 <= i <= es.len(),
    decreases es.len() - i,
{
    if i < 0 || i >= es.len() {
        Seq::empty()
    } else {
        text_bytes(es[i].0) + encoded(es[i].1) + encoded_entries_from(es, i + 1)
    }
}

/// The prefix and suffix forms of a sequence encoding agree.
proof fn lemma_seq_upto_is_from(s: Seq<ValueModel>, n: int)
    requires
        0 <= n <= s.len(),
    ensures
        encoded_seq_upto(s, s.len() as int) == encoded_seq_upto(s, n) + encoded_seq_from(s, n),
    decreases s.len() - n,
{
    if n == s.len() {
        assert(encoded_seq_upto(s, n) + encoded_seq_from(s, n) =~= encoded_seq_upto(s, n));
    } else {
        lemma_seq_upto_is_from(s, n + 1);
        assert(encoded_seq_upto(s, n + 1) =~= encoded_seq_upto(s, n) + encoded(s[n]));
        assert(encoded_seq_upto(s, n) + encoded(s[n]) + encoded_seq_from(s, n + 1)
            =~= encoded_seq_upto(s, n) + encoded_seq_from(s, n));
    }
}

/// The prefix and suffix forms of a mapping encoding agree.
proof fn lemma_entries_upto_is_from(es: Seq<(Seq<char>, ValueModel)>, n: int)
    requires
        0 <= n <= es.len(),
    ensures
        encoded_entries_upto(es, es.len() as int) == encoded_entries_upto(es, n)
            + encoded_entries_from(es, n),
    decreases es.len() - n,
{
    if n == es.len() {
        assert(encoded_entries_upto(es, n) + encoded_entries_from(es, n)
            =~= encoded_entries_upto(es, n));
    } else {
        lemma_entries_upto_is_from(es, n + 1);
        assert(encoded_entries_upto(es, n + 1) =~= encoded_entries_upto(es, n) + text_bytes(
            es[n].0,
        ) + encoded(es[n].1));
        assert(encoded_entries_upto(es, n) + text_bytes(es[n].0) + encoded(es[n].1)
            + encoded_entries_from(es, n + 1) =~= encoded_entries_upto(es, n)
            + encoded_entries_from(es, n));
    }
}

/// The tag byte of a value's encoding.
spec fn tag_of(v: ValueModel) -> u8 {
    match v {
        ValueModel::Str(_) => TAG_STR,
        ValueModel::Int(_) => TAG_INT,
        ValueModel::Uint(_) => TAG_UINT,
        ValueModel::Real(_) => TAG_REAL,
        ValueModel::Bool(_) => TAG_BOOL,
        ValueModel::Bytes(_) => TAG_BYTES,
        ValueModel::Sequence(_) => TAG_SEQ,
        ValueModel::Mapping(_) => TAG_MAP,
    }
}

/// Every encoding is non-empty and opens with its tag byte.
proof fn lemma_first_byte(v: ValueModel)
    ensures
        encoded(v).len() >= 1,
        encoded(v)[0] == tag_of(v),
{
    match v {
        ValueModel::Str(s) => {
            assert((seq![TAG_STR] + text_bytes(s))[0] == TAG_STR);
        },
        ValueModel::Int(i) => {
            assert((seq![TAG_INT] + be_bytes64(i as u64))[0] == TAG_INT);
        },
        ValueModel::Uint(u) => {
            assert((seq![TAG_UINT] + be_bytes64(u))[0] == TAG_UINT);
        },
        ValueModel::Real(r) => {
            assert((seq![TAG_REAL] + be_bytes32(r.bits))[0] == TAG_REAL);
        },
        ValueModel::Bool(b) => {
            assert(seq![TAG_BOOL, if b { 1u8 } else { 0u8 }][0] == TAG_BOOL);
        },
        ValueModel::Bytes(b) => {
            assert((seq![TAG_BYTES] + be_bytes64(b.len() as u64) + b)[0] == TAG_BYTES);
        },
        ValueModel::Sequence(vs) => {
            assert((seq![TAG_SEQ] + be_bytes64(vs.len() as u64) + encoded_seq_upto(
                vs,
                vs.len() as int,
            ))[0] == TAG_SEQ);
        },
        ValueModel::Mapping(es) => {
            assert((seq![TAG_MAP] + be_bytes64(es.len() as u64) + encoded_entries_upto(
                es,
                es.len() as int,
            ))[0] == TAG_MAP);
        },
    }
}

/// Encodings are self-delimiting: when two encoded values open two
/// equal byte streams, the values are equal and so are the remainders
/// of the streams.
proof fn lemma_encoded_self_delimiting(a: ValueModel, b: ValueModel, ra: Seq<u8>, rb: Seq<u8>)
    requires
        bounded(a),
        bounded(b),
        encoded(a) + ra == encoded(b) + rb,
    ensures
        a == b,
        ra == rb,
    decreases a, 0int, 0int,
{
    lemma_first_byte(a);
    lemma_first_byte(b);
    assert((encoded(a) + ra)[0] == tag_of(a));
    assert((encoded(b) + rb)[0] == tag_of(b));
    match a {
        ValueModel::Str(x) => {
            assert(b is Str);
            let y = b->Str_0;
            assert(seq![TAG_STR] + (text_bytes(x) + ra) =~= encoded(a) + ra);
            assert(seq![TAG_STR] + (text_bytes(y) + rb) =~= encoded(b) + rb);
            lemma_split_eq(seq![TAG_STR], text_bytes(x) + ra, seq![TAG_STR], text_bytes(y) + rb);
            lemma_text_block_self_delimiting(x, y, ra, rb);
        },
        ValueModel::Int(x) => {
            assert(b is Int);
            let y = b->Int_0;
            assert(seq![TAG_INT] + (be_bytes64(x as u64) + ra) =~= encoded(a) + ra);
            assert(seq![TAG_INT] + (be_bytes64(y as u64) + rb) =~= encoded(b) + rb);
            lemma_split_eq(
                seq![TAG_INT],
                be_bytes64(x as u64) + ra,
                seq![TAG_INT],
                be_bytes64(y as u64) + rb,
            );
            lemma_split_eq(be_bytes64(x as u64), ra, be_bytes64(y as u64), rb);
            lemma_be64_injective(x as u64, y as u64);
            assert(x == y) by (bit_vector)
                requires
                    x as u64 == y as u64,
            ;
        },
        ValueModel::Uint(x) => {
            assert(b is Uint);
            let y = b->Uint_0;
            assert(seq![TAG_UINT] + (be_bytes64(x) + ra) =~= encoded(a) + ra);
            assert(seq![TAG_UINT] + (be_bytes64(y) + rb) =~= encoded(b) + rb);
            lemma_split_eq(seq![TAG_UINT], be_bytes64(x) + ra, seq![TAG_UINT], be_bytes64(y) + rb);
            lemma_split_eq(be_bytes64(x), ra, be_bytes64(y), rb);
            lemma_be64_injective(x, y);
        },
        ValueModel::Real(x) => {
            assert(b is Real);
            let y = b->Real_0;
            assert(seq![TAG_REAL] + (be_bytes32(x.bits) + ra) =~= encoded(a) + ra);
            assert(seq![TAG_REAL] + (be_bytes32(y.bits) + rb) =~= encoded(b) + rb);
            lemma_split_eq(
                seq![TAG_REAL],
                be_bytes32(x.bits) + ra,
                seq![TAG_REAL],
                be_bytes32(y.bits) + rb,
            );
            lemma_split_eq(be_bytes32(x.bits), ra, be_bytes32(y.bits), rb);
            lemma_be32_injective(x.bits, y.bits);
        },
        ValueModel::Bool(x) => {
            assert(b is Bool);
            let y = b->Bool_0;
            assert((encoded(a) + ra)[1] == (if x { 1u8 } else { 0u8 }));
            assert((encoded(b) + rb)[1] == (if y { 1u8 } else { 0u8 }));
            assert(x == y);
            lemma_split_eq(encoded(a), ra, encoded(b), rb);
        },
        ValueModel::Bytes(x) => {
            assert(b is Bytes);
            let y = b->Bytes_0;
            assert(seq![TAG_BYTES] + (be_bytes64(x.len() as u64) + (x + ra)) =~= encoded(a) + ra);
            assert(seq![TAG_BYTES] + (be_bytes64(y.len() as u64) + (y + rb)) =~= encoded(b) + rb);
            lemma_split_eq(
                seq![TAG_BYTES],
                be_bytes64(x.len() as u64) + (x + ra),
                seq![TAG_BYTES],
                be_bytes64(y.len() as u64) + (y + rb),
            );
            lemma_split_eq(be_bytes64(x.len() as u64), x + ra, be_bytes64(y.len() as u64), y + rb);
            lemma_be64_injective(x.len() as u64, y.len() as u64);
            assert(x.len() == y.len());
            lemma_split_eq(x, ra, y, rb);
        },
        ValueModel::Sequence(va) => {
            assert(b is Sequence);
            let vb = b->Sequence_0;
            let ba = encoded_seq_upto(va, va.len() as int);
            let bb = encoded_seq_upto(vb, vb.len() as int);
            assert(seq![TAG_SEQ] + (be_bytes64(va.len() as u64) + (ba + ra)) =~= encoded(a) + ra);
            assert(seq![TAG_SEQ] + (be_bytes64(vb.len() as u64) + (bb + rb)) =~= encoded(b) + rb);
            lemma_split_eq(
                seq![TAG_SEQ],
                be_bytes64(va.len() as u64) + (ba + ra),
                seq![TAG_SEQ],
                be_bytes64(vb.len() as u64) + (bb + rb),
            );
            lemma_split_eq(be_bytes64(va.len() as u64), ba + ra, be_bytes64(vb.len() as u64), bb + rb);
            lemma_be64_injective(va.len() as u64, vb.len() as u64);
            assert(va.len() == vb.len());
            lemma_seq_upto_is_from(va, 0);
            lemma_seq_upto_is_from(vb, 0);
            assert(ba =~= encoded_seq_from(va, 0));
            assert(bb =~= encoded_seq_from(vb, 0));
            lemma_seq_self_delimiting(va, vb, 0, ra, rb);
            assert(va =~= vb);
        },
        ValueModel::Mapping(ea) => {
            assert(b is Mapping);
            let eb = b->Mapping_0;
            let ba = encoded_entries_upto(ea, ea.len() as int);
            let bb = encoded_entries_upto(eb, eb.len() as int);
            assert(seq![TAG_MAP] + (be_bytes64(ea.len() as u64) + (ba + ra)) =~= encoded(a) + ra);
            assert(seq![TAG_MAP] + (be_bytes64(eb.len() as u64) + (bb + rb)) =~= encoded(b) + rb);
            lemma_split_eq(
                seq![TAG_MAP],
                be_bytes64(ea.len() as u64) + (ba + ra),
                seq![TAG_MAP],
                be_bytes64(eb.len() as u64) + (bb + rb),
            );
            lemma_split_eq(be_bytes64(ea.len() as u64), ba + ra, be_bytes64(eb.len() as u64), bb + rb);
            lemma_be64_injective(ea.len() as u64, eb.len() as u64);
            assert(ea.len() == eb.len());
            lemma_entries_upto_is_from(ea, 0);
            lemma_entries_upto_is_from(eb, 0);
            assert(ba =~= encoded_entries_from(ea, 0));
            assert(bb =~= encoded_entries_from(eb, 0));
            lemma_entries_self_delimiting(ea, eb, 0, ra, rb);
            assert(ea =~= eb);
        },
    }
}

/// Element encodings from `i` on are self-delimiting.
proof fn lemma_seq_self_delimiting(
    sa: Seq<ValueModel>,
    sb: Seq<ValueModel>,
    i: int,
    ra: Seq<u8>,
    rb: Seq<u8>,
)
    requires
        sa.len() == sb.len(),
        0 <= i <= sa.len(),
        seq_bounded_upto(sa, sa.len() as int),
        seq_bounded_upto(sb, sb.len() as int),
        encoded_seq_from(sa, i) + ra == encoded_seq_from(sb, i) + rb,
    ensures
        forall|j: int| i <= j < sa.len() ==> sa[j] == sb[j],
        ra == rb,
    decreases sa, 1int, sa.len() - i,
{
    if i == sa.len() {
        lemma_split_eq(encoded_seq_from(sa, i), ra, encoded_seq_from(sb, i), rb);
    } else {
        lemma_seq_bounded_upto(sa, sa.len() as int);
        lemma_seq_bounded_upto(sb, sb.len() as int);
        assert(encoded(sa[i]) + (encoded_seq_from(sa, i + 1) + ra) =~= encoded_seq_from(sa, i)
            + ra);
        assert(encoded(sb[i]) + (encoded_seq_from(sb, i + 1) + rb) =~= encoded_seq_from(sb, i)
            + rb);
        lemma_encoded_self_delimiting(
            sa[i],
            sb[i],
            encoded_seq_from(sa, i + 1) + ra,
            encoded_seq_from(sb, i + 1) + rb,
        );
        lemma_seq_self_delimiting(sa, sb, i + 1, ra, rb);
    }
}

/// Entry encodings from `i` on are self-delimiting.
proof fn lemma_entries_self_delimiting(
    ea: Seq<(Seq<char>, ValueModel)>,
    eb: Seq<(Seq<char>, ValueModel)>,
    i: int,
    ra: Seq<u8>,
    rb: Seq<u8>,
)
    requires
        ea.len() == eb.len(),
        0 <= i <= ea.len(),
        entries_bounded_upto(ea, ea.len() as int),
        entries_bounded_upto(eb, eb.len() as int),
        encoded_entries_from(ea, i) + ra == encoded_entries_from(eb, i) + rb,
    ensures
        forall|j: int| i <= j < ea.len() ==> ea[j] == eb[j],
        ra == rb,
    decreases ea, 1int, ea.len() - i,
{
    if i == ea.len() {
        lemma_split_eq(encoded_entries_from(ea, i), ra, encoded_entries_from(eb, i), rb);
    } else {
        lemma_entries_bounded_upto(ea, ea.len() as int);
        lemma_entries_bounded_upto(eb, eb.len() as int);
        assert(text_bytes(ea[i].0) + (encoded(ea[i].1) + (encoded_entries_from(ea, i + 1) + ra))
            =~= encoded_entries_from(ea, i) + ra);
        assert(text_bytes(eb[i].0) + (encoded(eb[i].1) + (encoded_entries_from(eb, i + 1) + rb))
            =~= encoded_entries_from(eb, i) + rb);
        lemma_text_block_self_delimiting(
            ea[i].0,
            eb[i].0,
            encoded(ea[i].1) + (encoded_entries_from(ea, i + 1) + ra),
            encoded(eb[i].1) + (encoded_entries_from(eb, i + 1) + rb),
        );
        lemma_encoded_self_delimiting(
            ea[i].1,
            eb[i].1,
            encoded_entries_from(ea, i + 1) + ra,
            encoded_entries_from(eb, i + 1) + rb,
        );
        assert(ea[i] == eb[i]);
        lemma_entries_self_delimiting(ea, eb, i + 1, ra, rb);
    }
}

/// Round-trip law: the encoding loses nothing.  Two bounded values with
/// the same encoded document are the same value, so a decoder can
/// always recover the value from the byte stream.
pub proof fn lemma_encoded_doc_injective(a: ValueModel, b: ValueModel)
    requires
        bounded(a),
        bounded(b),
        encoded_doc(a) == encoded_doc(b),
    ensures
        a == b,
{
    lemma_split_eq(header_bytes(), encoded(a), header_bytes(), encoded(b));
    assert(encoded(a) + Seq::<u8>::empty() =~= encoded(b) + Seq::<u8>::empty());
    lemma_encoded_self_delimiting(a, b, Seq::empty(), Seq::empty());
}

} // verus!

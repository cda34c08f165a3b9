use glif_transcode::encode::encode;
use glif_transcode::glyph::Glyph;
use glif_transcode::reals::Real;
use glif_transcode::transcode::transcode_value;
use glif_transcode::value::Value;

const HEADER: [u8; 4] = [0x70, 0x64, 0x76, 0x01];

fn with_header(body: Vec<u8>) -> Vec<u8> {
    let mut out = HEADER.to_vec();
    out.extend(body);
    out
}

#[test]
fn header_is_fixed() {
    let bytes = encode(&Value::Bool(true));
    assert_eq!(&bytes[..4], &HEADER);
}

#[test]
fn booleans_encode_as_one_byte() {
    assert_eq!(encode(&Value::Bool(true)), with_header(vec![5, 1]));
    assert_eq!(encode(&Value::Bool(false)), with_header(vec![5, 0]));
}

#[test]
fn unsigned_integers_are_big_endian() {
    assert_eq!(
        encode(&Value::Uint(0x0102030405060708)),
        with_header(vec![3, 1, 2, 3, 4, 5, 6, 7, 8])
    );
}

#[test]
fn signed_integers_use_two_complement() {
    assert_eq!(
        encode(&Value::Int(-1)),
        with_header(vec![2, 255, 255, 255, 255, 255, 255, 255, 255])
    );
}

#[test]
fn reals_carry_their_bit_pattern() {
    let r = Real { bits: 1.5f32.to_bits() };
    assert_eq!(
        encode(&Value::Real(r)),
        with_header(vec![4, 0x3f, 0xc0, 0, 0])
    );
}

#[test]
fn strings_are_length_prefixed_scalar_values() {
    assert_eq!(
        encode(&Value::Str("A\u{10300}".to_string())),
        with_header(vec![
            1, // tag
            0, 0, 0, 0, 0, 0, 0, 2, // two characters
            0, 0, 0, 0x41, // 'A'
            0, 1, 3, 0, // U+10300
        ])
    );
}

#[test]
fn bytes_are_length_prefixed_raw() {
    assert_eq!(
        encode(&Value::Bytes(vec![9, 8])),
        with_header(vec![6, 0, 0, 0, 0, 0, 0, 0, 2, 9, 8])
    );
}

#[test]
fn sequences_nest_in_order() {
    assert_eq!(
        encode(&Value::Sequence(vec![Value::Bool(false), Value::Bool(true)])),
        with_header(vec![7, 0, 0, 0, 0, 0, 0, 0, 2, 5, 0, 5, 1])
    );
}

#[test]
fn mappings_keep_key_order() {
    let v = Value::Mapping(vec![
        ("b".to_string(), Value::Bool(true)),
        ("a".to_string(), Value::Bool(false)),
    ]);
    assert_eq!(
        encode(&v),
        with_header(vec![
            8, // tag
            0, 0, 0, 0, 0, 0, 0, 2, // two entries
            0, 0, 0, 0, 0, 0, 0, 1, 0, 0, 0, 0x62, // key "b"
            5, 1, // true
            0, 0, 0, 0, 0, 0, 0, 1, 0, 0, 0, 0x61, // key "a"
            5, 0, // false
        ])
    );
}

#[test]
fn encoding_is_deterministic() {
    let v = Value::Sequence(vec![
        Value::Str("x".to_string()),
        Value::Mapping(vec![("k".to_string(), Value::Int(7))]),
    ]);
    assert_eq!(encode(&v), encode(&v));
}

#[test]
fn transcoded_glyph_encodes_as_a_mapping_record() {
    let g = Glyph {
        name: "e".to_string(),
        codepoints: vec![],
        height: Real { bits: 0 },
        width: Real { bits: 0 },
        image: None,
        note: None,
        anchors: vec![],
        guidelines: vec![],
        contours: vec![],
        components: vec![],
        lib: vec![],
    };
    let v = transcode_value(&g).unwrap();
    let bytes = encode(&v);
    // a mapping of two entries: "contours" and "components", each an
    // empty sequence
    let mut expected = HEADER.to_vec();
    expected.push(8); // mapping tag
    expected.extend([0, 0, 0, 0, 0, 0, 0, 2]); // two entries
    expected.extend([0, 0, 0, 0, 0, 0, 0, 8]); // key length 8
    for c in "contours".chars() {
        expected.extend((c as u32).to_be_bytes());
    }
    expected.extend([7, 0, 0, 0, 0, 0, 0, 0, 0]); // empty sequence
    expected.extend([0, 0, 0, 0, 0, 0, 0, 10]); // key length 10
    for c in "components".chars() {
        expected.extend((c as u32).to_be_bytes());
    }
    expected.extend([7, 0, 0, 0, 0, 0, 0, 0, 0]); // empty sequence
    assert_eq!(bytes, expected);
}

use glif_transcode::convert::{convert_entries, convert_value};
use glif_transcode::errors::ConvertError;
use glif_transcode::pvalue::PlistValue;
use glif_transcode::reals::Real;
use glif_transcode::value::Value;

fn rv(x: f32) -> Real {
    Real { bits: x.to_bits() }
}

#[test]
fn string_maps_directly() {
    let r = convert_value("k", &PlistValue::Str("hello".to_string()));
    assert_eq!(r.unwrap(), Value::Str("hello".to_string()));
}

#[test]
fn boolean_maps_directly() {
    let r = convert_value("k", &PlistValue::Bool(true));
    assert_eq!(r.unwrap(), Value::Bool(true));
}

#[test]
fn real_maps_directly() {
    let r = convert_value("k", &PlistValue::Real(rv(2.5)));
    assert_eq!(r.unwrap(), Value::Real(rv(2.5)));
}

#[test]
fn bytes_map_directly() {
    let r = convert_value("k", &PlistValue::Bytes(vec![1, 2, 3]));
    assert_eq!(r.unwrap(), Value::Bytes(vec![1, 2, 3]));
}

#[test]
fn integer_prefers_signed() {
    let r = convert_value("k", &PlistValue::Int(42));
    assert_eq!(r.unwrap(), Value::Int(42));
}

#[test]
fn integer_negative_is_signed() {
    let r = convert_value("k", &PlistValue::Int(-(1i128 << 63)));
    assert_eq!(r.unwrap(), Value::Int(i64::MIN));
}

#[test]
fn integer_large_is_unsigned() {
    let r = convert_value("k", &PlistValue::Int(1i128 << 63));
    assert_eq!(r.unwrap(), Value::Uint(1u64 << 63));
}

#[test]
fn integer_max_unsigned() {
    let r = convert_value("k", &PlistValue::Int(u64::MAX as i128));
    assert_eq!(r.unwrap(), Value::Uint(u64::MAX));
}

#[test]
fn integer_above_range_fails() {
    let r = convert_value("num", &PlistValue::Int((u64::MAX as i128) + 1));
    assert_eq!(
        r.unwrap_err(),
        ConvertError::UnconvertibleInteger("num".to_string())
    );
}

#[test]
fn integer_below_range_fails() {
    let r = convert_value("num", &PlistValue::Int(-(1i128 << 63) - 1));
    assert_eq!(
        r.unwrap_err(),
        ConvertError::UnconvertibleInteger("num".to_string())
    );
}

#[test]
fn date_is_unhandled() {
    let r = convert_value("stamp", &PlistValue::Date);
    assert_eq!(
        r.unwrap_err(),
        ConvertError::UnhandledFormat("stamp".to_string())
    );
}

#[test]
fn uid_is_unhandled() {
    let r = convert_value("ref", &PlistValue::Uid(7));
    assert_eq!(r.unwrap_err(), ConvertError::UnhandledFormat("ref".to_string()));
}

#[test]
fn array_converts_elementwise() {
    let v = PlistValue::Array(vec![
        PlistValue::Int(1),
        PlistValue::Str("two".to_string()),
        PlistValue::Bool(false),
    ]);
    let r = convert_value("k", &v).unwrap();
    assert_eq!(
        r,
        Value::Sequence(vec![
            Value::Int(1),
            Value::Str("two".to_string()),
            Value::Bool(false),
        ])
    );
}

#[test]
fn nested_dict_converts_with_keys_kept() {
    let v = PlistValue::Dict(vec![
        (
            "inner".to_string(),
            PlistValue::Array(vec![PlistValue::Int(5)]),
        ),
        ("flag".to_string(), PlistValue::Bool(true)),
    ]);
    let r = convert_value("k", &v).unwrap();
    assert_eq!(
        r,
        Value::Mapping(vec![
            (
                "inner".to_string(),
                Value::Sequence(vec![Value::Int(5)]),
            ),
            ("flag".to_string(), Value::Bool(true)),
        ])
    );
}

#[test]
fn deep_failure_aborts_whole_conversion_with_top_key() {
    // the failure sits two levels down; the error still carries the
    // top-level key that was passed in
    let v = PlistValue::Array(vec![
        PlistValue::Int(1),
        PlistValue::Dict(vec![("d".to_string(), PlistValue::Date)]),
    ]);
    let r = convert_value("outer", &v);
    assert_eq!(
        r.unwrap_err(),
        ConvertError::UnhandledFormat("outer".to_string())
    );
}

#[test]
fn first_fault_in_order_wins() {
    // an unconvertible integer sits before a date: the integer's fault
    // is the one reported
    let v = PlistValue::Array(vec![
        PlistValue::Int((u64::MAX as i128) + 1),
        PlistValue::Date,
    ]);
    let r = convert_value("k", &v);
    assert_eq!(
        r.unwrap_err(),
        ConvertError::UnconvertibleInteger("k".to_string())
    );
}

#[test]
fn entries_convert_each_under_its_own_key() {
    let es = vec![
        ("one".to_string(), PlistValue::Int(1)),
        ("two".to_string(), PlistValue::Str("x".to_string())),
    ];
    let r = convert_entries(&es).unwrap();
    assert_eq!(
        r,
        vec![
            ("one".to_string(), Value::Int(1)),
            ("two".to_string(), Value::Str("x".to_string())),
        ]
    );
}

#[test]
fn entries_failure_names_the_failing_entry() {
    let es = vec![
        ("good".to_string(), PlistValue::Int(1)),
        ("bad".to_string(), PlistValue::Date),
    ];
    let r = convert_entries(&es);
    assert_eq!(
        r.unwrap_err(),
        ConvertError::UnhandledFormat("bad".to_string())
    );
}

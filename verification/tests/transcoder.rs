use glif_transcode::color::Color;
use glif_transcode::errors::{
    ConvertError, CorruptInput, LibSection, ObjectKind, TranscodeCause,
};
use glif_transcode::glyph::{
    Anchor, Component, Contour, ContourPoint, Glyph, Guideline, GuidelineLine, Image, PointType,
    Transform,
};
use glif_transcode::pvalue::PlistValue;
use glif_transcode::reals::Real;
use glif_transcode::transcode::transcode;
use glif_transcode::value::Value;

fn rv(x: f32) -> Real {
    Real { bits: x.to_bits() }
}

fn empty_glyph(name: &str) -> Glyph {
    Glyph {
        name: name.to_string(),
        codepoints: vec![],
        height: rv(0.0),
        width: rv(0.0),
        image: None,
        note: None,
        anchors: vec![],
        guidelines: vec![],
        contours: vec![],
        components: vec![],
        lib: vec![],
    }
}

fn keys(m: &[(String, Value)]) -> Vec<&str> {
    m.iter().map(|e| e.0.as_str()).collect()
}

fn get<'a>(m: &'a [(String, Value)], k: &str) -> &'a Value {
    &m.iter().find(|e| e.0 == k).unwrap().1
}

fn has(m: &[(String, Value)], k: &str) -> bool {
    m.iter().any(|e| e.0 == k)
}

#[test]
fn default_glyph_yields_only_contours_and_components() {
    let g = empty_glyph("empty");
    let m = transcode(&g).unwrap();
    assert_eq!(keys(&m), vec!["contours", "components"]);
    assert_eq!(m[0].1, Value::Sequence(vec![]));
    assert_eq!(m[1].1, Value::Sequence(vec![]));
}

#[test]
fn nonzero_metrics_are_emitted() {
    let mut g = empty_glyph("m");
    g.height = rv(700.0);
    g.width = rv(520.0);
    let m = transcode(&g).unwrap();
    assert_eq!(get(&m, "height"), &Value::Real(rv(700.0)));
    assert_eq!(get(&m, "width"), &Value::Real(rv(520.0)));
}

#[test]
fn negative_zero_metrics_are_elided() {
    let mut g = empty_glyph("z");
    g.height = rv(-0.0);
    g.width = rv(0.0);
    let m = transcode(&g).unwrap();
    assert!(!has(&m, "height"));
    assert!(!has(&m, "width"));
}

#[test]
fn codepoints_become_unicode_integers() {
    let mut g = empty_glyph("u");
    g.codepoints = vec![0x41, 0x10300];
    let m = transcode(&g).unwrap();
    assert_eq!(
        get(&m, "unicodes"),
        &Value::Sequence(vec![Value::Uint(0x41), Value::Uint(0x10300)])
    );
}

#[test]
fn note_is_kept_verbatim() {
    let mut g = empty_glyph("n");
    g.note = Some("a remark".to_string());
    let m = transcode(&g).unwrap();
    assert_eq!(get(&m, "note"), &Value::Str("a remark".to_string()));
}

#[test]
fn end_to_end_scenario() {
    // glyph "A": one anchor with an object lib, one contour of three
    // on-curve line points, no components, empty glyph lib
    let mut g = empty_glyph("A");
    g.anchors = vec![Anchor {
        name: Some("top".to_string()),
        x: rv(100.0),
        y: rv(700.0),
        color: None,
        identifier: Some("anc1".to_string()),
        lib: vec![("flag".to_string(), PlistValue::Bool(true))],
    }];
    let line_point = |x: f32, y: f32| ContourPoint {
        name: None,
        x: rv(x),
        y: rv(y),
        typ: PointType::Line,
        smooth: false,
        identifier: None,
        lib: vec![],
    };
    g.contours = vec![Contour {
        points: vec![line_point(0.0, 0.0), line_point(10.0, 0.0), line_point(5.0, 8.0)],
        identifier: None,
        lib: vec![],
    }];
    let m = transcode(&g).unwrap();
    assert_eq!(keys(&m), vec!["anchors", "lib", "contours", "components"]);
    assert_eq!(
        get(&m, "anchors"),
        &Value::Sequence(vec![Value::Mapping(vec![
            ("name".to_string(), Value::Str("top".to_string())),
            ("x".to_string(), Value::Real(rv(100.0))),
            ("y".to_string(), Value::Real(rv(700.0))),
            ("identifier".to_string(), Value::Str("anc1".to_string())),
        ])])
    );
    assert_eq!(
        get(&m, "lib"),
        &Value::Mapping(vec![(
            "public.objectLibs".to_string(),
            Value::Mapping(vec![(
                "anc1".to_string(),
                Value::Mapping(vec![("flag".to_string(), Value::Bool(true))]),
            )]),
        )])
    );
    let point = |x: f32, y: f32| {
        Value::Mapping(vec![
            ("x".to_string(), Value::Real(rv(x))),
            ("y".to_string(), Value::Real(rv(y))),
            ("type".to_string(), Value::Str("line".to_string())),
            ("smooth".to_string(), Value::Bool(false)),
        ])
    };
    assert_eq!(
        get(&m, "contours"),
        &Value::Sequence(vec![Value::Mapping(vec![(
            "points".to_string(),
            Value::Sequence(vec![point(0.0, 0.0), point(10.0, 0.0), point(5.0, 8.0)]),
        )])])
    );
    assert_eq!(get(&m, "components"), &Value::Sequence(vec![]));
}

#[test]
fn identity_transform_is_elided_from_component() {
    let mut g = empty_glyph("c");
    g.components = vec![Component {
        base: "base".to_string(),
        transform: Transform::identity(),
        identifier: None,
        lib: vec![],
    }];
    let m = transcode(&g).unwrap();
    assert_eq!(
        get(&m, "components"),
        &Value::Sequence(vec![Value::Mapping(vec![(
            "baseGlyph".to_string(),
            Value::Str("base".to_string()),
        )])])
    );
}

#[test]
fn other_transform_is_emitted_with_all_six_values() {
    let mut g = empty_glyph("c2");
    let mut t = Transform::identity();
    t.x_offset = rv(30.0);
    g.components = vec![Component {
        base: "base".to_string(),
        transform: t,
        identifier: None,
        lib: vec![],
    }];
    let m = transcode(&g).unwrap();
    assert_eq!(
        get(&m, "components"),
        &Value::Sequence(vec![Value::Mapping(vec![
            ("baseGlyph".to_string(), Value::Str("base".to_string())),
            (
                "transformation".to_string(),
                Value::Sequence(vec![
                    Value::Real(rv(1.0)),
                    Value::Real(rv(0.0)),
                    Value::Real(rv(0.0)),
                    Value::Real(rv(1.0)),
                    Value::Real(rv(30.0)),
                    Value::Real(rv(0.0)),
                ]),
            ),
        ])])
    );
}

#[test]
fn image_with_identity_transform_and_color() {
    let mut g = empty_glyph("i");
    g.image = Some(Image {
        file_name: "img.png".to_string(),
        transform: Transform::identity(),
        color: Some(Color { text: "1,0,0,1".to_string() }),
    });
    let m = transcode(&g).unwrap();
    assert_eq!(
        get(&m, "image"),
        &Value::Mapping(vec![
            ("fileName".to_string(), Value::Str("img.png".to_string())),
            ("color".to_string(), Value::Str("1,0,0,1".to_string())),
        ])
    );
}

#[test]
fn guideline_line_kinds_are_exclusive() {
    let mut g = empty_glyph("g");
    let bare = |line: GuidelineLine| Guideline {
        line,
        name: None,
        color: None,
        identifier: None,
        lib: vec![],
    };
    g.guidelines = vec![
        bare(GuidelineLine::Vertical(rv(10.0))),
        bare(GuidelineLine::Horizontal(rv(20.0))),
        bare(GuidelineLine::Angled {
            x: rv(1.0),
            y: rv(2.0),
            degrees: rv(45.0),
        }),
    ];
    let m = transcode(&g).unwrap();
    let gl = match get(&m, "guidelines") {
        Value::Sequence(v) => v,
        other => panic!("guidelines should be a sequence, got {:?}", other),
    };
    fn dict(v: &Value) -> &Vec<(String, Value)> {
        match v {
            Value::Mapping(es) => es,
            other => panic!("guideline should be a mapping, got {:?}", other),
        }
    }
    let vert = dict(&gl[0]);
    assert!(has(vert, "x") && !has(vert, "y") && !has(vert, "angle"));
    assert_eq!(get(vert, "x"), &Value::Real(rv(10.0)));
    let horiz = dict(&gl[1]);
    assert!(has(horiz, "y") && !has(horiz, "x") && !has(horiz, "angle"));
    let ang = dict(&gl[2]);
    assert!(has(ang, "x") && has(ang, "y") && has(ang, "angle"));
    assert_eq!(get(ang, "angle"), &Value::Real(rv(45.0)));
}

#[test]
fn guideline_name_and_color_are_kept() {
    let mut g = empty_glyph("gn");
    g.guidelines = vec![Guideline {
        line: GuidelineLine::Horizontal(rv(500.0)),
        name: Some("ascender".to_string()),
        color: Some(Color { text: "0,1,0,1".to_string() }),
        identifier: Some("gd1".to_string()),
        lib: vec![],
    }];
    let m = transcode(&g).unwrap();
    assert_eq!(
        get(&m, "guidelines"),
        &Value::Sequence(vec![Value::Mapping(vec![
            ("y".to_string(), Value::Real(rv(500.0))),
            ("name".to_string(), Value::Str("ascender".to_string())),
            ("color".to_string(), Value::Str("0,1,0,1".to_string())),
            ("identifier".to_string(), Value::Str("gd1".to_string())),
        ])])
    );
}

#[test]
fn color_is_rendered_through_the_canonical_formatter() {
    // a color written with trailing zeros comes out normalized, so the
    // formatter demonstrably ran
    let mut g = empty_glyph("col");
    g.anchors = vec![Anchor {
        name: None,
        x: rv(0.0),
        y: rv(0.0),
        color: Some(Color { text: "0.5000,0,0,1.0".to_string() }),
        identifier: None,
        lib: vec![],
    }];
    let m = transcode(&g).unwrap();
    let anchors = match get(&m, "anchors") {
        Value::Sequence(v) => v,
        other => panic!("anchors should be a sequence, got {:?}", other),
    };
    let dict = match &anchors[0] {
        Value::Mapping(es) => es,
        other => panic!("anchor should be a mapping, got {:?}", other),
    };
    assert_eq!(get(dict, "color"), &Value::Str("0.5,0,0,1".to_string()));
}

#[test]
fn malformed_color_is_omitted() {
    // a channel above one is not a color; the formatter refuses it and
    // the key is left out as if the color were absent
    let mut g = empty_glyph("badcol");
    g.anchors = vec![Anchor {
        name: None,
        x: rv(0.0),
        y: rv(0.0),
        color: Some(Color { text: "2,0,0,1".to_string() }),
        identifier: None,
        lib: vec![],
    }];
    let m = transcode(&g).unwrap();
    let anchors = match get(&m, "anchors") {
        Value::Sequence(v) => v,
        other => panic!("anchors should be a sequence, got {:?}", other),
    };
    let dict = match &anchors[0] {
        Value::Mapping(es) => es,
        other => panic!("anchor should be a mapping, got {:?}", other),
    };
    assert!(!has(dict, "color"));
}

#[test]
fn glyph_lib_failure_names_glyph_and_section() {
    let mut g = empty_glyph("faulty");
    g.lib = vec![("stamp".to_string(), PlistValue::Date)];
    let e = transcode(&g).unwrap_err();
    assert_eq!(e.glyph_name, "faulty");
    assert_eq!(e.section, LibSection::GlyphLib);
    assert_eq!(
        e.cause,
        TranscodeCause::Conversion(ConvertError::UnhandledFormat("stamp".to_string()))
    );
}

#[test]
fn missing_identifier_names_the_kind() {
    let mut g = empty_glyph("noid");
    g.guidelines = vec![Guideline {
        line: GuidelineLine::Vertical(rv(1.0)),
        name: None,
        color: None,
        identifier: None,
        lib: vec![("flag".to_string(), PlistValue::Bool(true))],
    }];
    let e = transcode(&g).unwrap_err();
    assert_eq!(e.glyph_name, "noid");
    assert_eq!(e.section, LibSection::GuidelineLib);
    assert_eq!(
        e.cause,
        TranscodeCause::Corrupt(CorruptInput::MissingIdentifier(ObjectKind::Guideline))
    );
}

#[test]
fn object_lib_conversion_failure_names_point_section_and_identifier() {
    let mut g = empty_glyph("deep");
    g.contours = vec![Contour {
        points: vec![ContourPoint {
            name: None,
            x: rv(0.0),
            y: rv(0.0),
            typ: PointType::Move,
            smooth: false,
            identifier: Some("pt9".to_string()),
            lib: vec![(
                "big".to_string(),
                PlistValue::Int((u64::MAX as i128) + 1),
            )],
        }],
        identifier: None,
        lib: vec![],
    }];
    let e = transcode(&g).unwrap_err();
    assert_eq!(e.glyph_name, "deep");
    assert_eq!(e.section, LibSection::PointLib);
    assert_eq!(
        e.cause,
        TranscodeCause::Conversion(ConvertError::UnconvertibleInteger("pt9".to_string()))
    );
}

#[test]
fn duplicate_identifier_fails_transcode() {
    let mut g = empty_glyph("dup");
    let a = |id: &str| Anchor {
        name: None,
        x: rv(0.0),
        y: rv(0.0),
        color: None,
        identifier: Some(id.to_string()),
        lib: vec![("flag".to_string(), PlistValue::Bool(true))],
    };
    g.anchors = vec![a("same"), a("same")];
    let e = transcode(&g).unwrap_err();
    assert_eq!(e.section, LibSection::AnchorLib);
    assert_eq!(
        e.cause,
        TranscodeCause::Corrupt(CorruptInput::DuplicateIdentifier(
            ObjectKind::Anchor,
            "same".to_string(),
        ))
    );
}

#[test]
fn glyph_lib_keys_are_kept_and_merged() {
    let mut g = empty_glyph("lib");
    g.lib = vec![
        ("com.example.note".to_string(), PlistValue::Str("v".to_string())),
        ("count".to_string(), PlistValue::Int(3)),
    ];
    let m = transcode(&g).unwrap();
    assert_eq!(
        get(&m, "lib"),
        &Value::Mapping(vec![
            (
                "com.example.note".to_string(),
                Value::Str("v".to_string()),
            ),
            ("count".to_string(), Value::Int(3)),
        ])
    );
}

#[test]
fn off_curve_point_has_no_type_key() {
    let mut g = empty_glyph("off");
    g.contours = vec![Contour {
        points: vec![ContourPoint {
            name: Some("h1".to_string()),
            x: rv(1.0),
            y: rv(2.0),
            typ: PointType::OffCurve,
            smooth: false,
            identifier: None,
            lib: vec![],
        }],
        identifier: Some("c1".to_string()),
        lib: vec![],
    }];
    let m = transcode(&g).unwrap();
    assert_eq!(
        get(&m, "contours"),
        &Value::Sequence(vec![Value::Mapping(vec![
            (
                "points".to_string(),
                Value::Sequence(vec![Value::Mapping(vec![
                    ("name".to_string(), Value::Str("h1".to_string())),
                    ("x".to_string(), Value::Real(rv(1.0))),
                    ("y".to_string(), Value::Real(rv(2.0))),
                    ("smooth".to_string(), Value::Bool(false)),
                ])]),
            ),
            ("identifier".to_string(), Value::Str("c1".to_string())),
        ])])
    );
}

#[test]
fn transcoding_twice_gives_equal_dictionaries() {
    let mut g = empty_glyph("twice");
    g.height = rv(10.0);
    g.anchors = vec![Anchor {
        name: Some("top".to_string()),
        x: rv(1.0),
        y: rv(2.0),
        color: None,
        identifier: Some("a1".to_string()),
        lib: vec![("flag".to_string(), PlistValue::Bool(true))],
    }];
    let m1 = transcode(&g).unwrap();
    let m2 = transcode(&g).unwrap();
    assert_eq!(m1, m2);
}

#[test]
fn failure_message_names_glyph_section_and_cause() {
    let mut g = empty_glyph("Q");
    g.lib = vec![("big".to_string(), PlistValue::Int((u64::MAX as i128) + 1))];
    let e = transcode(&g).unwrap_err();
    assert_eq!(
        e.message(),
        "Failed to convert glyph lib data for glyph 'Q': \
         lib element contains unconvertible integer for key 'big'"
    );
}

use glif_transcode::consolidate::consolidate;
use glif_transcode::errors::{CorruptInput, ObjectKind};
use glif_transcode::glyph::{
    Anchor, Component, Contour, ContourPoint, Glyph, Guideline, GuidelineLine, PointType,
    Transform,
};
use glif_transcode::pvalue::PlistValue;
use glif_transcode::reals::Real;

fn rv(x: f32) -> Real {
    Real { bits: x.to_bits() }
}

fn empty_glyph(name: &str) -> Glyph {
    Glyph {
        name: name.to_string(),
        codepoints: vec![],
        height: rv(0.0),
        width: rv(0.0),
        image: None,
        note: None,
        anchors: vec![],
        guidelines: vec![],
        contours: vec![],
        components: vec![],
        lib: vec![],
    }
}

fn anchor(id: Option<&str>, lib: Vec<(String, PlistValue)>) -> Anchor {
    Anchor {
        name: None,
        x: rv(0.0),
        y: rv(0.0),
        color: None,
        identifier: id.map(|s| s.to_string()),
        lib,
    }
}

fn flag_lib(key: &str) -> Vec<(String, PlistValue)> {
    vec![(key.to_string(), PlistValue::Bool(true))]
}

#[test]
fn empty_glyph_consolidates_to_empty_map() {
    let g = empty_glyph("e");
    let m = consolidate(&g).unwrap();
    assert!(m.is_empty());
}

#[test]
fn visit_order_is_anchors_guidelines_contours_points_components() {
    let mut g = empty_glyph("o");
    g.components = vec![Component {
        base: "b".to_string(),
        transform: Transform::identity(),
        identifier: Some("cmp1".to_string()),
        lib: flag_lib("e"),
    }];
    g.contours = vec![Contour {
        points: vec![ContourPoint {
            name: None,
            x: rv(0.0),
            y: rv(0.0),
            typ: PointType::Line,
            smooth: false,
            identifier: Some("pt1".to_string()),
            lib: flag_lib("d"),
        }],
        identifier: Some("cont1".to_string()),
        lib: flag_lib("c"),
    }];
    g.guidelines = vec![Guideline {
        line: GuidelineLine::Vertical(rv(10.0)),
        name: None,
        color: None,
        identifier: Some("gd1".to_string()),
        lib: flag_lib("b"),
    }];
    g.anchors = vec![anchor(Some("anc1"), flag_lib("a"))];
    let m = consolidate(&g).unwrap();
    let keys: Vec<&str> = m.iter().map(|e| e.0.as_str()).collect();
    assert_eq!(keys, vec!["anc1", "gd1", "cont1", "pt1", "cmp1"]);
    assert_eq!(m[0].1, PlistValue::Dict(flag_lib("a")));
    assert_eq!(m[3].1, PlistValue::Dict(flag_lib("d")));
}

#[test]
fn empty_sub_object_lib_contributes_nothing() {
    let mut g = empty_glyph("s");
    g.anchors = vec![anchor(Some("anc1"), vec![])];
    let m = consolidate(&g).unwrap();
    assert!(m.is_empty());
}

#[test]
fn library_without_identifier_is_corrupt_input() {
    let mut g = empty_glyph("m");
    g.anchors = vec![anchor(None, flag_lib("a"))];
    let r = consolidate(&g);
    assert_eq!(
        r.unwrap_err(),
        CorruptInput::MissingIdentifier(ObjectKind::Anchor)
    );
}

#[test]
fn duplicate_identifier_is_rejected_not_overwritten() {
    let mut g = empty_glyph("d");
    g.anchors = vec![
        anchor(Some("dup"), flag_lib("a")),
        anchor(Some("dup"), flag_lib("b")),
    ];
    let r = consolidate(&g);
    assert_eq!(
        r.unwrap_err(),
        CorruptInput::DuplicateIdentifier(ObjectKind::Anchor, "dup".to_string())
    );
}

#[test]
fn duplicate_across_kinds_is_rejected() {
    let mut g = empty_glyph("x");
    g.anchors = vec![anchor(Some("shared"), flag_lib("a"))];
    g.components = vec![Component {
        base: "b".to_string(),
        transform: Transform::identity(),
        identifier: Some("shared".to_string()),
        lib: flag_lib("b"),
    }];
    let r = consolidate(&g);
    assert_eq!(
        r.unwrap_err(),
        CorruptInput::DuplicateIdentifier(ObjectKind::Component, "shared".to_string())
    );
}

#[test]
fn consolidation_is_idempotent() {
    let mut g = empty_glyph("i");
    g.anchors = vec![anchor(Some("anc1"), flag_lib("a"))];
    g.contours = vec![Contour {
        points: vec![],
        identifier: Some("cont1".to_string()),
        lib: flag_lib("c"),
    }];
    let m1 = consolidate(&g).unwrap();
    let m2 = consolidate(&g).unwrap();
    assert_eq!(m1, m2);
}

//! The glyph transcoder: assembles the canonical glyph dictionary,
//! applying the format's default-value elision rules.
//!
//! Every key of the dictionary is subject to an elision rule: it is
//! omitted entirely — never emitted as an empty value — when its value
//! equals the defined default (zero metrics, the identity transform, an
//! empty collection, an absent optional).  Only `contours` and
//! `components` are always present.  A transcode either fully succeeds
//! or fails atomically with a composite error naming the owning glyph
//! and the failing library section.

use vstd::prelude::*;

use crate::color::{format_rgba, rgba_text_of, Color};
use crate::consolidate::{
    check_entries, collect_object_libs, consolidate_error, consolidate_ok, consolidated,
    first_violation, lemma_consolidated_upto, object_entries,
};
use crate::convert::{
    convert_entries, convert_value, convertible, converted, dict_first_bad,
    entries_convertible, entries_converted, entries_fault, lemma_converted_dict_upto,
    lemma_dict_first_bad_is, lemma_dict_first_bad_none,
};
use crate::errors::{
    section_for_kind, section_of_kind, CorruptInput, LibSection, TranscodeCause,
    TranscodeCauseModel, TranscodeError, TranscodeErrorModel,
};
use crate::glyph::{
    opt_color_view, opt_text_view, seq_views, Anchor, AnchorModel, Component, ComponentModel,
    Contour, ContourModel, ContourPoint, ContourPointModel, Glyph, GlyphModel, Guideline,
    GuidelineLine, GuidelineModel, Image, ImageModel, PointType, Transform,
};
use crate::pvalue::{lemma_plist_entry_models_upto, plist_entry_models};
use crate::value::{
    entry_models, lemma_entry_models_upto, lemma_value_models_upto, model_has_key, value_models,
    Value, ValueModel,
};

verus! {

broadcast use vstd::std_specs::vec::group_vec_axioms;

/// One entry under `key` when the optional text is present, none when it
/// is absent.
pub open spec fn opt_text_entry(key: Seq<char>, o: Option<Seq<char>>) -> Seq<
    (Seq<char>, ValueModel),
> {
    match o {
        Option::Some(t) => seq![(key, ValueModel::Str(t))],
        Option::None => Seq::empty(),
    }
}

/// The `color` entry: present when a color is present and the canonical
/// formatter accepts it; an absent color is omitted, never emitted empty.
pub open spec fn color_entry(c: Option<Seq<char>>) -> Seq<(Seq<char>, ValueModel)> {
    match c {
        Option::Some(cs) => match rgba_text_of(cs) {
            Option::Some(t) => seq![("color"@, ValueModel::Str(t))],
            Option::None => Seq::empty(),
        },
        Option::None => Seq::empty(),
    }
}

/// A transform as a sequence of its six values.
pub open spec fn transform_value(t: Transform) -> ValueModel {
    ValueModel::Sequence(
        seq![
            ValueModel::Real(t.x_scale),
            ValueModel::Real(t.xy_scale),
            ValueModel::Real(t.yx_scale),
            ValueModel::Real(t.y_scale),
            ValueModel::Real(t.x_offset),
            ValueModel::Real(t.y_offset),
        ],
    )
}

/// The `transformation` entry: elided exactly when the transform is the
/// canonical identity; any other transform yields all six values.
pub open spec fn transform_entry(t: Transform) -> Seq<(Seq<char>, ValueModel)> {
    if t.spec_is_identity() {
        Seq::empty()
    } else {
        seq![("transformation"@, transform_value(t))]
    }
}

/// An anchor's dictionary: name, x, y, color, identifier, optionals
/// elided when absent.
pub open spec fn anchor_dict(a: AnchorModel) -> Seq<(Seq<char>, ValueModel)> {
    opt_text_entry("name"@, a.name) + seq![
        ("x"@, ValueModel::Real(a.x)),
        ("y"@, ValueModel::Real(a.y)),
    ] + color_entry(a.color) + opt_text_entry("identifier"@, a.identifier)
}

/// The line-kind entries of a guideline: exactly `x` for a vertical
/// line, exactly `y` for a horizontal one, and `x`, `y` and `angle` for
/// an angled one.
pub open spec fn line_entries(line: GuidelineLine) -> Seq<(Seq<char>, ValueModel)> {
    match line {
        GuidelineLine::Vertical(x) => seq![("x"@, ValueModel::Real(x))],
        GuidelineLine::Horizontal(y) => seq![("y"@, ValueModel::Real(y))],
        GuidelineLine::Angled { x, y, degrees } => seq![
            ("x"@, ValueModel::Real(x)),
            ("y"@, ValueModel::Real(y)),
            ("angle"@, ValueModel::Real(degrees)),
        ],
    }
}

/// A guideline's dictionary.
pub open spec fn guideline_dict(g: GuidelineModel) -> Seq<(Seq<char>, ValueModel)> {
    line_entries(g.line) + opt_text_entry("name"@, g.name) + color_entry(g.color)
        + opt_text_entry("identifier"@, g.identifier)
}

/// The `type` entry of a point: absent for off-curve points, the point
/// type's name otherwise.
pub open spec fn type_entry(t: PointType) -> Seq<(Seq<char>, ValueModel)> {
    match t {
        PointType::Move => seq![("type"@, ValueModel::Str("move"@))],
        PointType::Line => seq![("type"@, ValueModel::Str("line"@))],
        PointType::OffCurve => Seq::empty(),
        PointType::Curve => seq![("type"@, ValueModel::Str("curve"@))],
        PointType::QCurve => seq![("type"@, ValueModel::Str("qcurve"@))],
    }
}

/// A contour point's dictionary.
pub open spec fn point_dict(p: ContourPointModel) -> Seq<(Seq<char>, ValueModel)> {
    opt_text_entry("name"@, p.name) + seq![
        ("x"@, ValueModel::Real(p.x)),
        ("y"@, ValueModel::Real(p.y)),
    ] + type_entry(p.typ) + seq![("smooth"@, ValueModel::Bool(p.smooth))] + opt_text_entry(
        "identifier"@,
        p.identifier,
    )
}

/// The dictionaries of the first `n` points, each as a mapping value.
pub open spec fn points_values_upto(s: Seq<ContourPointModel>, n: int) -> Seq<ValueModel>
    recommends
        0 <= n <= s.len(),
    decreases n,
{
    if n <= 0 || n > s.len() {
        Seq::empty()
    } else {
        points_values_upto(s, n - 1).push(ValueModel::Mapping(point_dict(s[n - 1])))
    }
}

/// A contour's dictionary: its points, and its identifier when present.
pub open spec fn contour_dict(c: ContourModel) -> Seq<(Seq<char>, ValueModel)> {
    seq![
        ("points"@, ValueModel::Sequence(points_values_upto(c.points, c.points.len() as int))),
    ] + opt_text_entry("identifier"@, c.identifier)
}

/// A component's dictionary.
pub open spec fn component_dict(c: ComponentModel) -> Seq<(Seq<char>, ValueModel)> {
    seq![("baseGlyph"@, ValueModel::Str(c.base))] + transform_entry(c.transform)
        + opt_text_entry("identifier"@, c.identifier)
}

/// An image's dictionary.
pub open spec fn image_dict(img: ImageModel) -> Seq<(Seq<char>, ValueModel)> {
    seq![("fileName"@, ValueModel::Str(img.file_name))] + transform_entry(img.transform)
        + color_entry(img.color)
}

/// The first `n` codepoints as unsigned integer values.
pub open spec fn codepoint_values_upto(s: Seq<u32>, n: int) -> Seq<ValueModel>
    recommends
        0 <= n <= s.len(),
    decreases n,
{
    if n <= 0 || n > s.len() {
        Seq::empty()
    } else {
        codepoint_values_upto(s, n - 1).push(ValueModel::Uint(s[n - 1] as u64))
    }
}

/// The dictionaries of the first `n` anchors, each as a mapping value.
pub open spec fn anchor_values_upto(s: Seq<AnchorModel>, n: int) -> Seq<ValueModel>
    recommends
        0 <= n <= s.len(),
    decreases n,
{
    if n <= 0 || n > s.len() {
        Seq::empty()
    } else {
        anchor_values_upto(s, n - 1).push(ValueModel::Mapping(anchor_dict(s[n - 1])))
    }
}

/// The dictionaries of the first `n` guidelines, each as a mapping value.
pub open spec fn guideline_values_upto(s: Seq<GuidelineModel>, n: int) -> Seq<ValueModel>
    recommends
        0 <= n <= s.len(),
    decreases n,
{
    if n <= 0 || n > s.len() {
        Seq::empty()
    } else {
        guideline_values_upto(s, n - 1).push(ValueModel::Mapping(guideline_dict(s[n - 1])))
    }
}

/// The dictionaries of the first `n` contours, each as a mapping value.
pub open spec fn contour_values_upto(s: Seq<ContourModel>, n: int) -> Seq<ValueModel>
    recommends
        0 <= n <= s.len(),
    decreases n,
{
    if n <= 0 || n > s.len() {
        Seq::empty()
    } else {
        contour_values_upto(s, n - 1).push(ValueModel::Mapping(contour_dict(s[n - 1])))
    }
}

/// The dictionaries of the first `n` components, each as a mapping value.
pub open spec fn component_values_upto(s: Seq<ComponentModel>, n: int) -> Seq<ValueModel>
    recommends
        0 <= n <= s.len(),
    decreases n,
{
    if n <= 0 || n > s.len() {
        Seq::empty()
    } else {
        component_values_upto(s, n - 1).push(ValueModel::Mapping(component_dict(s[n - 1])))
    }
}

/// The glyph's merged `lib` entries: its own library, converted, with
/// the consolidated object-library map — when non-empty — appended under
/// the reserved `public.objectLibs` key.
pub open spec fn merged_lib(g: GlyphModel) -> Seq<(Seq<char>, ValueModel)> {
    entries_converted(g.lib) + (if consolidated(g).len() > 0 {
        seq![
            (
                "public.objectLibs"@,
                ValueModel::Mapping(entries_converted(consolidated(g))),
            ),
        ]
    } else {
        Seq::empty()
    })
}

/// The `lib` entry: the merged library, elided when empty.
pub open spec fn lib_entry(g: GlyphModel) -> Seq<(Seq<char>, ValueModel)> {
    if merged_lib(g).len() > 0 {
        seq![("lib"@, ValueModel::Mapping(merged_lib(g)))]
    } else {
        Seq::empty()
    }
}

/// Whether the transcode succeeds: the glyph's own library converts, the
/// object libraries consolidate, and the consolidated map converts.
pub open spec fn transcode_ok(g: GlyphModel) -> bool {
    entries_convertible(g.lib) && consolidate_ok(g) && entries_convertible(consolidated(g))
}

/// The canonical glyph dictionary, with every elision rule applied.
pub open spec fn glyph_dict(g: GlyphModel) -> Seq<(Seq<char>, ValueModel)>
    recommends
        transcode_ok(g),
{
    (if g.codepoints.len() > 0 {
        seq![
            (
                "unicodes"@,
                ValueModel::Sequence(
                    codepoint_values_upto(g.codepoints, g.codepoints.len() as int),
                ),
            ),
        ]
    } else {
        Seq::empty()
    }) + (if !g.height.spec_is_zero() {
        seq![("height"@, ValueModel::Real(g.height))]
    } else {
        Seq::empty()
    }) + (if !g.width.spec_is_zero() {
        seq![("width"@, ValueModel::Real(g.width))]
    } else {
        Seq::empty()
    }) + (match g.image {
        Option::Some(img) => seq![("image"@, ValueModel::Mapping(image_dict(img)))],
        Option::None => Seq::empty(),
    }) + (if g.anchors.len() > 0 {
        seq![
            (
                "anchors"@,
                ValueModel::Sequence(anchor_values_upto(g.anchors, g.anchors.len() as int)),
            ),
        ]
    } else {
        Seq::empty()
    }) + (if g.guidelines.len() > 0 {
        seq![
            (
                "guidelines"@,
                ValueModel::Sequence(
                    guideline_values_upto(g.guidelines, g.guidelines.len() as int),
                ),
            ),
        ]
    } else {
        Seq::empty()
    }) + lib_entry(g) + seq![
        (
            "contours"@,
            ValueModel::Sequence(contour_values_upto(g.contours, g.contours.len() as int)),
        ),
        (
            "components"@,
            ValueModel::Sequence(component_values_upto(g.components, g.components.len() as int)),
        ),
    ] + opt_text_entry("note"@, g.note)
}

/// The composite error a failing transcode reports: the glyph's name,
/// the failing library section, and the innermost cause.  The glyph's
/// own library is converted first; then the object libraries are
/// consolidated; then the consolidated map is converted, each entry
/// under its identifier as key.
pub open spec fn transcode_fault(g: GlyphModel) -> TranscodeErrorModel
    recommends
        !transcode_ok(g),
{
    if !entries_convertible(g.lib) {
        TranscodeErrorModel {
            glyph_name: g.name,
            section: LibSection::GlyphLib,
            cause: TranscodeCauseModel::Conversion(entries_fault(g.lib)),
        }
    } else if !consolidate_ok(g) {
        let es = object_entries(g);
        let k = first_violation(es, 0);
        TranscodeErrorModel {
            glyph_name: g.name,
            section: section_of_kind(es[k].kind),
            cause: TranscodeCauseModel::Corrupt(consolidate_error(g)),
        }
    } else {
        let m = consolidated(g);
        let k = dict_first_bad(m, 0);
        TranscodeErrorModel {
            glyph_name: g.name,
            section: section_of_kind(object_entries(g)[k].kind),
            cause: TranscodeCauseModel::Conversion(entries_fault(m)),
        }
    }
}

/// Pushing a value appends its model.
pub proof fn lemma_value_models_push(s: Seq<Value>, x: Value)
    ensures
        value_models(s.push(x)) == value_models(s).push(x@),
{
    lemma_value_models_upto(s.push(x), s.len() as int + 1);
    lemma_value_models_upto(s, s.len() as int);
    assert(value_models(s.push(x)) =~= value_models(s).push(x@));
}

/// Appends one entry under the given key.
fn push_entry(out: &mut Vec<(String, Value)>, key: &str, v: Value)
    ensures
        entry_models(final(out)@) == entry_models(old(out)@).push((key@, v@)),
{
    let ghost before = out@;
    let ghost model = v@;
    out.push((key.to_owned(), v));
    proof {
        lemma_entry_models_upto(out@, out@.len() as int);
        lemma_entry_models_upto(before, before.len() as int);
        assert(entry_models(out@) =~= entry_models(before).push((key@, model)));
    }
}

/// Appends one text entry when the optional text is present.
fn push_opt_text(out: &mut Vec<(String, Value)>, key: &str, o: &Option<String>)
    ensures
        entry_models(final(out)@) == entry_models(old(out)@) + opt_text_entry(
            key@,
            opt_text_view(*o),
        ),
{
    match o {
        Option::Some(s) => {
            push_entry(out, key, Value::Str(s.clone()));
            proof {
                assert(entry_models(out@) =~= entry_models(old(out)@) + opt_text_entry(
                    key@,
                    opt_text_view(*o),
                ));
            }
        },
        Option::None => {
            proof {
                assert(entry_models(out@) =~= entry_models(old(out)@) + opt_text_entry(
                    key@,
                    opt_text_view(*o),
                ));
            }
        },
    }
}

/// Appends the `color` entry when a color is present and the canonical
/// formatter accepts it.
fn push_color(out: &mut Vec<(String, Value)>, c: &Option<Color>)
    ensures
        entry_models(final(out)@) == entry_models(old(out)@) + color_entry(opt_color_view(*c)),
{
    match c {
        Option::Some(col) => {
            match format_rgba(col) {
                Option::Some(text) => {
                    push_entry(out, "color", Value::Str(text));
                    proof {
                        assert(entry_models(out@) =~= entry_models(old(out)@) + color_entry(
                            opt_color_view(*c),
                        ));
                    }
                },
                Option::None => {
                    proof {
                        assert(entry_models(out@) =~= entry_models(old(out)@) + color_entry(
                            opt_color_view(*c),
                        ));
                    }
                },
            }
        },
        Option::None => {
            proof {
                assert(entry_models(out@) =~= entry_models(old(out)@) + color_entry(
                    opt_color_view(*c),
                ));
            }
        },
    }
}

/// Appends the `transformation` entry when the transform is not the
/// canonical identity.
fn push_transform(out: &mut Vec<(String, Value)>, t: &Transform)
    ensures
        entry_models(final(out)@) == entry_models(old(out)@) + transform_entry(*t),
{
    if t.is_identity() {
        proof {
            assert(entry_models(out@) =~= entry_models(old(out)@) + transform_entry(*t));
        }
        return ;
    }
    let mut vs: Vec<Value> = Vec::new();
    vs.push(Value::Real(t.x_scale));
    vs.push(Value::Real(t.xy_scale));
    vs.push(Value::Real(t.yx_scale));
    vs.push(Value::Real(t.y_scale));
    vs.push(Value::Real(t.x_offset));
    vs.push(Value::Real(t.y_offset));
    proof {
        lemma_value_models_upto(vs@, vs@.len() as int);
        assert(value_models(vs@) =~= seq![
            ValueModel::Real(t.x_scale),
            ValueModel::Real(t.xy_scale),
            ValueModel::Real(t.yx_scale),
            ValueModel::Real(t.y_scale),
            ValueModel::Real(t.x_offset),
            ValueModel::Real(t.y_offset),
        ]);
    }
    push_entry(out, "transformation", Value::Sequence(vs));
    proof {
        assert(entry_models(out@) =~~= entry_models(old(out)@) + transform_entry(*t));
    }
}

/// Builds an anchor's dictionary.
fn build_anchor_dict(a: &Anchor) -> (out: Vec<(String, Value)>)
    ensures
        entry_models(out@) == anchor_dict(a@),
{
    let mut out: Vec<(String, Value)> = Vec::new();
    push_opt_text(&mut out, "name", &a.name);
    push_entry(&mut out, "x", Value::Real(a.x));
    push_entry(&mut out, "y", Value::Real(a.y));
    push_color(&mut out, &a.color);
    push_opt_text(&mut out, "identifier", &a.identifier);
    proof {
        assert(entry_models(out@) =~~= anchor_dict(a@));
    }
    out
}

/// Builds a guideline's dictionary.
fn build_guideline_dict(gl: &Guideline) -> (out: Vec<(String, Value)>)
    ensures
        entry_models(out@) == guideline_dict(gl@),
{
    let mut out: Vec<(String, Value)> = Vec::new();
    match &gl.line {
        GuidelineLine::Vertical(x) => {
            push_entry(&mut out, "x", Value::Real(*x));
        },
        GuidelineLine::Horizontal(y) => {
            push_entry(&mut out, "y", Value::Real(*y));
        },
        GuidelineLine::Angled { x, y, degrees } => {
            push_entry(&mut out, "x", Value::Real(*x));
            push_entry(&mut out, "y", Value::Real(*y));
            push_entry(&mut out, "angle", Value::Real(*degrees));
        },
    }
    proof {
        assert(entry_models(out@) =~~= line_entries(gl@.line));
    }
    push_opt_text(&mut out, "name", &gl.name);
    push_color(&mut out, &gl.color);
    push_opt_text(&mut out, "identifier", &gl.identifier);
    proof {
        assert(entry_models(out@) =~~= guideline_dict(gl@));
    }
    out
}

/// Builds a contour point's dictionary.
fn build_point_dict(p: &ContourPoint) -> (out: Vec<(String, Value)>)
    ensures
        entry_models(out@) == point_dict(p@),
{
    let mut out: Vec<(String, Value)> = Vec::new();
    push_opt_text(&mut out, "name", &p.name);
    push_entry(&mut out, "x", Value::Real(p.x));
    push_entry(&mut out, "y", Value::Real(p.y));
    match p.typ {
        PointType::Move => {
            push_entry(&mut out, "type", Value::Str("move".to_owned()));
        },
        PointType::Line => {
            push_entry(&mut out, "type", Value::Str("line".to_owned()));
        },
        PointType::OffCurve => {},
        PointType::Curve => {
            push_entry(&mut out, "type", Value::Str("curve".to_owned()));
        },
        PointType::QCurve => {
            push_entry(&mut out, "type", Value::Str("qcurve".to_owned()));
        },
    }
    push_entry(&mut out, "smooth", Value::Bool(p.smooth));
    push_opt_text(&mut out, "identifier", &p.identifier);
    proof {
        assert(entry_models(out@) =~~= point_dict(p@));
    }
    out
}

/// Builds a contour's dictionary.
#[verifier::loop_isolation(false)]
fn build_contour_dict(c: &Contour) -> (out: Vec<(String, Value)>)
    ensures
        entry_models(out@) == contour_dict(c@),
{
    let mut pts: Vec<Value> = Vec::new();
    let mut i: usize = 0;
    while i < c.points.len()
        invariant
            i <= c.points.len(),
            value_models(pts@) =~~= points_values_upto(c@.points, i as int),
        decreases c.points.len() - i,
    {
        let d = build_point_dict(&c.points[i]);
        let ghost before = pts@;
        pts.push(Value::Mapping(d));
        proof {
            lemma_value_models_push(before, Value::Mapping(d));
            assert(value_models(pts@) =~~= points_values_upto(c@.points, i + 1));
        }
        i = i + 1;
    }
    let mut out: Vec<(String, Value)> = Vec::new();
    push_entry(&mut out, "points", Value::Sequence(pts));
    push_opt_text(&mut out, "identifier", &c.identifier);
    proof {
        assert(entry_models(out@) =~~= contour_dict(c@));
    }
    out
}

/// Builds a component's dictionary.
fn build_component_dict(cm: &Component) -> (out: Vec<(String, Value)>)
    ensures
        entry_models(out@) == component_dict(cm@),
{
    let mut out: Vec<(String, Value)> = Vec::new();
    push_entry(&mut out, "baseGlyph", Value::Str(cm.base.clone()));
    push_transform(&mut out, &cm.transform);
    push_opt_text(&mut out, "identifier", &cm.identifier);
    proof {
        assert(entry_models(out@) =~~= component_dict(cm@));
    }
    out
}

/// Builds an image's dictionary.
fn build_image_dict(img: &Image) -> (out: Vec<(String, Value)>)
    ensures
        entry_models(out@) == image_dict(img@),
{
    let mut out: Vec<(String, Value)> = Vec::new();
    push_entry(&mut out, "fileName", Value::Str(img.file_name.clone()));
    push_transform(&mut out, &img.transform);
    push_color(&mut out, &img.color);
    proof {
        assert(entry_models(out@) =~~= image_dict(img@));
    }
    out
}

/// Builds the codepoint values, in order.
#[verifier::loop_isolation(false)]
fn build_codepoint_values(cps: &Vec<u32>) -> (out: Vec<Value>)
    ensures
        value_models(out@) == codepoint_values_upto(cps@, cps@.len() as int),
{
    let mut out: Vec<Value> = Vec::new();
    let mut i: usize = 0;
    while i < cps.len()
        invariant
            i <= cps.len(),
            value_models(out@) =~~= codepoint_values_upto(cps@, i as int),
        decreases cps.len() - i,
    {
        let ghost before = out@;
        let c = cps[i];
        out.push(Value::Uint(c as u64));
        proof {
            lemma_value_models_push(before, Value::Uint(c as u64));
            assert(value_models(out@) =~~= codepoint_values_upto(cps@, i + 1));
        }
        i = i + 1;
    }
    out
}

/// Builds the anchor dictionaries, in order.
#[verifier::loop_isolation(false)]
fn build_anchor_values(anchors: &Vec<Anchor>) -> (out: Vec<Value>)
    ensures
        value_models(out@) == anchor_values_upto(seq_views(anchors@), anchors@.len() as int),
{
    let mut out: Vec<Value> = Vec::new();
    let mut i: usize = 0;
    while i < anchors.len()
        invariant
            i <= anchors.len(),
            value_models(out@) =~~= anchor_values_upto(seq_views(anchors@), i as int),
        decreases anchors.len() - i,
    {
        let d = build_anchor_dict(&anchors[i]);
        let ghost before = out@;
        out.push(Value::Mapping(d));
        proof {
            lemma_value_models_push(before, Value::Mapping(d));
            assert(value_models(out@) =~~= anchor_values_upto(seq_views(anchors@), i + 1));
        }
        i = i + 1;
    }
    out
}

/// Builds the guideline dictionaries, in order.
#[verifier::loop_isolation(false)]
fn build_guideline_values(guidelines: &Vec<Guideline>) -> (out: Vec<Value>)
    ensures
        value_models(out@) == guideline_values_upto(
            seq_views(guidelines@),
            guidelines@.len() as int,
        ),
{
    let mut out: Vec<Value> = Vec::new();
    let mut i: usize = 0;
    while i < guidelines.len()
        invariant
            i <= guidelines.len(),
            value_models(out@) =~~= guideline_values_upto(seq_views(guidelines@), i as int),
        decreases guidelines.len() - i,
    {
        let d = build_guideline_dict(&guidelines[i]);
        let ghost before = out@;
        out.push(Value::Mapping(d));
        proof {
            lemma_value_models_push(before, Value::Mapping(d));
            assert(value_models(out@) =~~= guideline_values_upto(
                seq_views(guidelines@),
                i + 1,
            ));
        }
        i = i + 1;
    }
    out
}

/// Builds the contour dictionaries, in order.
#[verifier::loop_isolation(false)]
fn build_contour_values(contours: &Vec<Contour>) -> (out: Vec<Value>)
    ensures
        value_models(out@) == contour_values_upto(seq_views(contours@), contours@.len() as int),
{
    let mut out: Vec<Value> = Vec::new();
    let mut i: usize = 0;
    while i < contours.len()
        invariant
            i <= contours.len(),
            value_models(out@) =~~= contour_values_upto(seq_views(contours@), i as int),
        decreases contours.len() - i,
    {
        let d = build_contour_dict(&contours[i]);
        let ghost before = out@;
        out.push(Value::Mapping(d));
        proof {
            lemma_value_models_push(before, Value::Mapping(d));
            assert(value_models(out@) =~~= contour_values_upto(seq_views(contours@), i + 1));
        }
        i = i + 1;
    }
    out
}

/// Builds the component dictionaries, in order.
#[verifier::loop_isolation(false)]
fn build_component_values(components: &Vec<Component>) -> (out: Vec<Value>)
    ensures
        value_models(out@) == component_values_upto(
            seq_views(components@),
            components@.len() as int,
        ),
{
    let mut out: Vec<Value> = Vec::new();
    let mut i: usize = 0;
    while i < components.len()
        invariant
            i <= components.len(),
            value_models(out@) =~~= component_values_upto(seq_views(components@), i as int),
        decreases components.len() - i,
    {
        let d = build_component_dict(&components[i]);
        let ghost before = out@;
        out.push(Value::Mapping(d));
        proof {
            lemma_value_models_push(before, Value::Mapping(d));
            assert(value_models(out@) =~~= component_values_upto(
                seq_views(components@),
                i + 1,
            ));
        }
        i = i + 1;
    }
    out
}


/// Transcodes a glyph into its canonical dictionary.
///
/// On success the dictionary is exactly [`glyph_dict`] of the glyph's
/// model, every elision rule applied; on failure the error is exactly
/// [`transcode_fault`] — the owning glyph's name, the failing library
/// section and the innermost cause — and no partial result is visible.
/// Assembles the canonical dictionary from the glyph and its merged
/// library entries.
#[verifier::rlimit(100)]
#[verifier::loop_isolation(false)]
fn assemble_dict(g: &Glyph, lib_out: Vec<(String, Value)>) -> (out: Vec<(String, Value)>)
    requires
        entry_models(lib_out@) == merged_lib(g@),
    ensures
        entry_models(out@) == glyph_dict(g@),
{
    let mut out: Vec<(String, Value)> = Vec::new();
    let ghost d1 = if g@.codepoints.len() > 0 {
        seq![
            (
                "unicodes"@,
                ValueModel::Sequence(
                    codepoint_values_upto(g@.codepoints, g@.codepoints.len() as int),
                ),
            ),
        ]
    } else {
        Seq::<(Seq<char>, ValueModel)>::empty()
    };
    if g.codepoints.len() > 0 {
        let cv = build_codepoint_values(&g.codepoints);
        push_entry(&mut out, "unicodes", Value::Sequence(cv));
    }
    proof {
        assert(entry_models(out@) =~~= d1);
    }
    let ghost d2 = d1 + (if !g@.height.spec_is_zero() {
        seq![("height"@, ValueModel::Real(g@.height))]
    } else {
        Seq::<(Seq<char>, ValueModel)>::empty()
    });
    if !g.height.is_zero() {
        push_entry(&mut out, "height", Value::Real(g.height));
    }
    proof {
        assert(entry_models(out@) =~~= d2);
    }
    let ghost d3 = d2 + (if !g@.width.spec_is_zero() {
        seq![("width"@, ValueModel::Real(g@.width))]
    } else {
        Seq::<(Seq<char>, ValueModel)>::empty()
    });
    if !g.width.is_zero() {
        push_entry(&mut out, "width", Value::Real(g.width));
    }
    proof {
        assert(entry_models(out@) =~~= d3);
    }
    let ghost d4 = d3 + (match g@.image {
        Option::Some(img) => seq![("image"@, ValueModel::Mapping(image_dict(img)))],
        Option::None => Seq::<(Seq<char>, ValueModel)>::empty(),
    });
    match &g.image {
        Option::Some(img) => {
            let d = build_image_dict(img);
            push_entry(&mut out, "image", Value::Mapping(d));
        },
        Option::None => {},
    }
    proof {
        assert(entry_models(out@) =~~= d4);
    }
    let ghost d5 = d4 + (if g@.anchors.len() > 0 {
        seq![
            (
                "anchors"@,
                ValueModel::Sequence(anchor_values_upto(g@.anchors, g@.anchors.len() as int)),
            ),
        ]
    } else {
        Seq::<(Seq<char>, ValueModel)>::empty()
    });
    if g.anchors.len() > 0 {
        let av = build_anchor_values(&g.anchors);
        push_entry(&mut out, "anchors", Value::Sequence(av));
    }
    proof {
        assert(entry_models(out@) =~~= d5);
    }
    let ghost d6 = d5 + (if g@.guidelines.len() > 0 {
        seq![
            (
                "guidelines"@,
                ValueModel::Sequence(
                    guideline_values_upto(g@.guidelines, g@.guidelines.len() as int),
                ),
            ),
        ]
    } else {
        Seq::<(Seq<char>, ValueModel)>::empty()
    });
    if g.guidelines.len() > 0 {
        let gv = build_guideline_values(&g.guidelines);
        push_entry(&mut out, "guidelines", Value::Sequence(gv));
    }
    proof {
        assert(entry_models(out@) =~~= d6);
    }
    let ghost d7 = d6 + lib_entry(g@);
    proof {
        lemma_entry_models_upto(lib_out@, lib_out@.len() as int);
    }
    if lib_out.len() > 0 {
        push_entry(&mut out, "lib", Value::Mapping(lib_out));
    }
    proof {
        assert(entry_models(out@) =~~= d7);
    }
    let cv = build_contour_values(&g.contours);
    push_entry(&mut out, "contours", Value::Sequence(cv));
    let cmv = build_component_values(&g.components);
    push_entry(&mut out, "components", Value::Sequence(cmv));
    let ghost d8 = d7 + seq![
        (
            "contours"@,
            ValueModel::Sequence(contour_values_upto(g@.contours, g@.contours.len() as int)),
        ),
        (
            "components"@,
            ValueModel::Sequence(
                component_values_upto(g@.components, g@.components.len() as int),
            ),
        ),
    ];
    proof {
        assert(entry_models(out@) =~~= d8);
    }
    push_opt_text(&mut out, "note", &g.note);
    proof {
        assert(entry_models(out@) =~~= d8 + opt_text_entry("note"@, g@.note));
        assert(entry_models(out@) =~~= glyph_dict(g@));
    }
    out
}

#[verifier::rlimit(30)]
#[verifier::loop_isolation(false)]
pub fn transcode(g: &Glyph) -> (r: Result<Vec<(String, Value)>, TranscodeError>)
    ensures
        transcode_ok(g@) ==> (r matches Ok(m) && entry_models(m@) == glyph_dict(g@)),
        !transcode_ok(g@) ==> (r matches Err(e) && e@ == transcode_fault(g@)),
{
    let glyph_lib = match convert_entries(&g.lib) {
        Ok(m) => m,
        Err(e) => {
            return Err(
                TranscodeError {
                    glyph_name: g.name.clone(),
                    section: LibSection::GlyphLib,
                    cause: TranscodeCause::Conversion(e),
                },
            );
        },
    };
    let entries = collect_object_libs(g);
    let ghost es = seq_views(entries@);
    let consolidated_map = match check_entries(&entries) {
        Ok(m) => m,
        Err(ci) => {
            let kind = match &ci {
                CorruptInput::MissingIdentifier(k) => *k,
                CorruptInput::DuplicateIdentifier(k, _) => *k,
            };
            return Err(
                TranscodeError {
                    glyph_name: g.name.clone(),
                    section: section_for_kind(kind),
                    cause: TranscodeCause::Corrupt(ci),
                },
            );
        },
    };
    let ghost m = plist_entry_models(consolidated_map@);
    proof {
        lemma_plist_entry_models_upto(consolidated_map@, consolidated_map@.len() as int);
        lemma_consolidated_upto(es, es.len() as int);
        assert(m == consolidated(g@));
        assert(m.len() == es.len());
    }
    let mut obj_values: Vec<(String, Value)> = Vec::new();
    let mut idx: usize = 0;
    while idx < consolidated_map.len()
        invariant
            idx <= consolidated_map.len(),
            obj_values@.len() == idx,
            forall|i: int| 0 <= i < idx ==> convertible(#[trigger] m[i].1),
            forall|i: int|
                0 <= i < idx ==> (#[trigger] obj_values@[i]).0@ == m[i].0 && obj_values@[i].1@
                    == converted(m[i].1),
        decreases consolidated_map.len() - idx,
    {
        let key = consolidated_map[idx].0.clone();
        match convert_value(key.as_str(), &consolidated_map[idx].1) {
            Ok(cv) => {
                obj_values.push((key, cv));
            },
            Err(e) => {
                proof {
                    assert(m[idx as int].1 == consolidated_map@[idx as int].1@);
                    lemma_dict_first_bad_is(m, 0, idx as int);
                }
                let kind = entries[idx].kind;
                return Err(
                    TranscodeError {
                        glyph_name: g.name.clone(),
                        section: section_for_kind(kind),
                        cause: TranscodeCause::Conversion(e),
                    },
                );
            },
        }
        idx = idx + 1;
    }
    proof {
        lemma_dict_first_bad_none(m, 0);
        lemma_converted_dict_upto(m, m.len() as int);
        lemma_entry_models_upto(obj_values@, obj_values@.len() as int);
        assert(entry_models(obj_values@) =~~= entries_converted(m));
    }
    let mut lib_out = glyph_lib;
    if consolidated_map.len() > 0 {
        push_entry(&mut lib_out, "public.objectLibs", Value::Mapping(obj_values));
    }
    proof {
        assert(entry_models(lib_out@) =~~= merged_lib(g@));
    }
    Ok(assemble_dict(g, lib_out))
}

/// A key occurs in a concatenation exactly when it occurs in one of the
/// parts.
pub proof fn lemma_has_key_add(
    a: Seq<(Seq<char>, ValueModel)>,
    b: Seq<(Seq<char>, ValueModel)>,
    k: Seq<char>,
)
    ensures
        model_has_key(a + b, k) <==> model_has_key(a, k) || model_has_key(b, k),
{
    if model_has_key(a, k) {
        let i = choose|i: int| 0 <= i < a.len() && a[i].0 == k;
        assert((a + b)[i].0 == k);
    }
    if model_has_key(b, k) {
        let i = choose|i: int| 0 <= i < b.len() && b[i].0 == k;
        assert((a + b)[a.len() + i].0 == k);
    }
    if model_has_key(a + b, k) {
        let i = choose|i: int| 0 <= i < (a + b).len() && (a + b)[i].0 == k;
        if i < a.len() {
            assert(a[i].0 == k);
        } else {
            assert(b[i - a.len()].0 == k);
        }
    }
}

/// An optional text entry holds the key exactly when the text is
/// present and the key is its own.
pub proof fn lemma_has_key_opt(key: Seq<char>, o: Option<Seq<char>>, k: Seq<char>)
    ensures
        model_has_key(opt_text_entry(key, o), k) <==> (o is Some && k == key),
{
    match o {
        Option::Some(_) => {
            assert(opt_text_entry(key, o)[0].0 == key);
            if model_has_key(opt_text_entry(key, o), k) {
                let i = choose|i: int|
                    0 <= i < opt_text_entry(key, o).len() && opt_text_entry(key, o)[i].0 == k;
                assert(i == 0);
            }
        },
        Option::None => {
            if model_has_key(opt_text_entry(key, o), k) {
                let i = choose|i: int|
                    0 <= i < opt_text_entry(key, o).len() && opt_text_entry(key, o)[i].0 == k;
            }
        },
    }
}

/// A color entry can only hold the `color` key.
pub proof fn lemma_has_key_color(c: Option<Seq<char>>, k: Seq<char>)
    ensures
        model_has_key(color_entry(c), k) ==> k == "color"@,
{
    if model_has_key(color_entry(c), k) {
        let i = choose|i: int| 0 <= i < color_entry(c).len() && color_entry(c)[i].0 == k;
        assert(color_entry(c)[i].0 == "color"@);
    }
}

/// A transformation entry can only hold the `transformation` key, and
/// holds it exactly when the transform is not the identity.
pub proof fn lemma_has_key_transform(t: Transform, k: Seq<char>)
    ensures
        model_has_key(transform_entry(t), k) <==> (!t.spec_is_identity() && k
            == "transformation"@),
{
    if !t.spec_is_identity() {
        assert(transform_entry(t)[0].0 == "transformation"@);
    }
    if model_has_key(transform_entry(t), k) {
        let i = choose|i: int|
            0 <= i < transform_entry(t).len() && transform_entry(t)[i].0 == k;
        assert(i == 0);
    }
}

/// Identity-transform elision law: a component's or an image's
/// dictionary holds a `transformation` key exactly when its transform
/// differs from the canonical identity; when the key is present its
/// value carries all six transform values.
pub proof fn lemma_identity_transform_elision(c: ComponentModel, img: ImageModel)
    ensures
        model_has_key(component_dict(c), "transformation"@) <==> !c.transform.spec_is_identity(),
        model_has_key(image_dict(img), "transformation"@) <==> !img.transform.spec_is_identity(),
        !c.transform.spec_is_identity() ==> component_dict(c)[1] == (
            "transformation"@,
            transform_value(c.transform),
        ),
        !img.transform.spec_is_identity() ==> image_dict(img)[1] == (
            "transformation"@,
            transform_value(img.transform),
        ),
{
    reveal_strlit("transformation");
    reveal_strlit("baseGlyph");
    reveal_strlit("identifier");
    reveal_strlit("fileName");
    reveal_strlit("color");
    let k = "transformation"@;
    assert(k.len() == 14);
    assert("identifier"@.len() == 10);
    assert("baseGlyph"@.len() == 9);
    assert("fileName"@.len() == 8);
    assert("color"@.len() == 5);
    assert(k != "identifier"@);
    assert(k != "baseGlyph"@);
    assert(k != "fileName"@);
    assert(k != "color"@);
    let base = seq![("baseGlyph"@, ValueModel::Str(c.base))];
    let oid = opt_text_entry("identifier"@, c.identifier);
    assert(component_dict(c) == base + transform_entry(c.transform) + oid);
    lemma_has_key_add(base + transform_entry(c.transform), oid, k);
    lemma_has_key_add(base, transform_entry(c.transform), k);
    lemma_has_key_opt("identifier"@, c.identifier, k);
    lemma_has_key_transform(c.transform, k);
    assert(!model_has_key(base, k)) by {
        if model_has_key(base, k) {
            let i = choose|i: int| 0 <= i < base.len() && base[i].0 == k;
            assert(base[i].0 == "baseGlyph"@);
        }
    }
    assert(model_has_key(component_dict(c), k) <==> model_has_key(
        transform_entry(c.transform),
        k,
    ));
    let fname = seq![("fileName"@, ValueModel::Str(img.file_name))];
    let ocol = color_entry(img.color);
    assert(image_dict(img) == fname + transform_entry(img.transform) + ocol);
    lemma_has_key_add(fname + transform_entry(img.transform), ocol, k);
    lemma_has_key_add(fname, transform_entry(img.transform), k);
    lemma_has_key_color(img.color, k);
    lemma_has_key_transform(img.transform, k);
    assert(!model_has_key(fname, k)) by {
        if model_has_key(fname, k) {
            let i = choose|i: int| 0 <= i < fname.len() && fname[i].0 == k;
            assert(fname[i].0 == "fileName"@);
        }
    }
    assert(model_has_key(image_dict(img), k) <==> model_has_key(
        transform_entry(img.transform),
        k,
    ));
}

/// The keys a guideline's line-kind entries hold: `x` exactly for
/// vertical and angled lines, `y` exactly for horizontal and angled
/// lines, `angle` exactly for angled lines, and nothing else.
pub proof fn lemma_has_key_line(line: GuidelineLine, k: Seq<char>)
    ensures
        model_has_key(line_entries(line), k) <==> match line {
            GuidelineLine::Vertical(_) => k == "x"@,
            GuidelineLine::Horizontal(_) => k == "y"@,
            GuidelineLine::Angled { .. } => k == "x"@ || k == "y"@ || k == "angle"@,
        },
{
    reveal_strlit("x");
    reveal_strlit("y");
    reveal_strlit("angle");
    let le = line_entries(line);
    match line {
        GuidelineLine::Vertical(_) => {
            assert(le[0].0 == "x"@);
            if model_has_key(le, k) {
                let i = choose|i: int| 0 <= i < le.len() && le[i].0 == k;
                assert(i == 0);
            }
        },
        GuidelineLine::Horizontal(_) => {
            assert(le[0].0 == "y"@);
            if model_has_key(le, k) {
                let i = choose|i: int| 0 <= i < le.len() && le[i].0 == k;
                assert(i == 0);
            }
        },
        GuidelineLine::Angled { .. } => {
            assert(le[0].0 == "x"@);
            assert(le[1].0 == "y"@);
            assert(le[2].0 == "angle"@);
            if model_has_key(le, k) {
                let i = choose|i: int| 0 <= i < le.len() && le[i].0 == k;
                assert(i == 0 || i == 1 || i == 2);
            }
        },
    }
}

/// Whether a guideline's dictionary holds the given line-kind key.
pub proof fn lemma_guideline_dict_key(g: GuidelineModel, k: Seq<char>)
    requires
        k == "x"@ || k == "y"@ || k == "angle"@,
    ensures
        model_has_key(guideline_dict(g), k) <==> model_has_key(line_entries(g.line), k),
{
    reveal_strlit("x");
    reveal_strlit("y");
    reveal_strlit("angle");
    reveal_strlit("name");
    reveal_strlit("color");
    reveal_strlit("identifier");
    let a = line_entries(g.line);
    let b = opt_text_entry("name"@, g.name);
    let cc = color_entry(g.color);
    let d = opt_text_entry("identifier"@, g.identifier);
    assert("x"@.len() == 1 && "y"@.len() == 1 && "angle"@.len() == 5);
    assert("name"@.len() == 4 && "color"@.len() == 5 && "identifier"@.len() == 10);
    assert("angle"@[0] == 'a' && "color"@[0] == 'c');
    assert(k != "name"@);
    assert(k != "color"@);
    assert(k != "identifier"@);
    assert(guideline_dict(g) == a + b + cc + d);
    lemma_has_key_add(a + b + cc, d, k);
    lemma_has_key_add(a + b, cc, k);
    lemma_has_key_add(a, b, k);
    lemma_has_key_opt("name"@, g.name, k);
    lemma_has_key_opt("identifier"@, g.identifier, k);
    lemma_has_key_color(g.color, k);
    assert(model_has_key(guideline_dict(g), k) <==> model_has_key(a, k));
}

/// Guideline line-kind exclusivity law: a vertical guideline's
/// dictionary holds `x` and neither `y` nor `angle`; a horizontal one
/// holds `y` and neither `x` nor `angle`; an angled one holds all three.
pub proof fn lemma_guideline_line_kind_exclusivity(g: GuidelineModel)
    ensures
        g.line matches GuidelineLine::Vertical(_) ==> model_has_key(guideline_dict(g), "x"@)
            && !model_has_key(guideline_dict(g), "y"@) && !model_has_key(
            guideline_dict(g),
            "angle"@,
        ),
        g.line matches GuidelineLine::Horizontal(_) ==> model_has_key(guideline_dict(g), "y"@)
            && !model_has_key(guideline_dict(g), "x"@) && !model_has_key(
            guideline_dict(g),
            "angle"@,
        ),
        g.line matches GuidelineLine::Angled { .. } ==> model_has_key(guideline_dict(g), "x"@)
            && model_has_key(guideline_dict(g), "y"@) && model_has_key(
            guideline_dict(g),
            "angle"@,
        ),
{
    reveal_strlit("x");
    reveal_strlit("y");
    reveal_strlit("angle");
    assert("x"@.len() == 1 && "y"@.len() == 1 && "angle"@.len() == 5);
    assert("x"@[0] == 'x' && "y"@[0] == 'y');
    assert("x"@ != "y"@ && "x"@ != "angle"@ && "y"@ != "angle"@);
    lemma_guideline_dict_key(g, "x"@);
    lemma_guideline_dict_key(g, "y"@);
    lemma_guideline_dict_key(g, "angle"@);
    lemma_has_key_line(g.line, "x"@);
    lemma_has_key_line(g.line, "y"@);
    lemma_has_key_line(g.line, "angle"@);
}

/// Round-trip elision law: a glyph with no codepoints, zero height and
/// width, no image, no anchors, no guidelines, an empty library, no
/// attached object libraries and no note transcodes to a dictionary
/// holding exactly the `contours` and `components` keys.
pub proof fn lemma_default_glyph_elision(g: GlyphModel)
    requires
        g.codepoints.len() == 0,
        g.height.spec_is_zero(),
        g.width.spec_is_zero(),
        g.image is None,
        g.anchors.len() == 0,
        g.guidelines.len() == 0,
        g.lib.len() == 0,
        g.note is None,
        object_entries(g).len() == 0,
    ensures
        transcode_ok(g),
        glyph_dict(g) == seq![
            (
                "contours"@,
                ValueModel::Sequence(contour_values_upto(g.contours, g.contours.len() as int)),
            ),
            (
                "components"@,
                ValueModel::Sequence(
                    component_values_upto(g.components, g.components.len() as int),
                ),
            ),
        ],
{
    assert(entries_convertible(g.lib));
    assert(consolidate_ok(g));
    assert(consolidated(g).len() == 0);
    assert(entries_convertible(consolidated(g)));
    assert(merged_lib(g).len() == 0);
    assert(glyph_dict(g) =~= seq![
        (
            "contours"@,
            ValueModel::Sequence(contour_values_upto(g.contours, g.contours.len() as int)),
        ),
        (
            "components"@,
            ValueModel::Sequence(
                component_values_upto(g.components, g.components.len() as int),
            ),
        ),
    ]);
}

/// Transcodes a glyph into one mapping value, ready for the binary
/// encoding adapter.
pub fn transcode_value(g: &Glyph) -> (r: Result<Value, TranscodeError>)
    ensures
        transcode_ok(g@) ==> (r matches Ok(v) && v@ == ValueModel::Mapping(glyph_dict(g@))),
        !transcode_ok(g@) ==> (r matches Err(e) && e@ == transcode_fault(g@)),
{
    match transcode(g) {
        Ok(m) => {
            proof {
                lemma_entry_models_upto(m@, m@.len() as int);
            }
            Ok(Value::Mapping(m))
        },
        Err(e) => Err(e),
    }
}

/// Key-uniqueness of the merged library: when the glyph's own library
/// is key-unique and does not use the reserved `public.objectLibs` key
/// — which the loader guarantees of validated input — the merged `lib`
/// mapping is key-unique too.
pub proof fn lemma_merged_lib_keys_unique(g: GlyphModel)
    requires
        transcode_ok(g),
        crate::pvalue::plist_keys_unique(g.lib),
        forall|i: int| 0 <= i < g.lib.len() ==> (#[trigger] g.lib[i]).0 != "public.objectLibs"@,
    ensures
        crate::value::model_keys_unique(merged_lib(g)),
{
    let conv = entries_converted(g.lib);
    lemma_converted_dict_upto(g.lib, g.lib.len() as int);
    let m = merged_lib(g);
    assert forall|i: int, j: int| 0 <= i < j < m.len() implies m[i].0 != m[j].0 by {
        if j < conv.len() {
            assert(m[i].0 == g.lib[i].0 && m[j].0 == g.lib[j].0);
        } else {
            assert(m[j].0 == "public.objectLibs"@);
            assert(m[i].0 == g.lib[i].0);
        }
    }
}

/// Two key-unique entry groups with no key in common concatenate into a
/// key-unique group.
pub proof fn lemma_keys_unique_add(
    a: Seq<(Seq<char>, ValueModel)>,
    b: Seq<(Seq<char>, ValueModel)>,
)
    requires
        crate::value::model_keys_unique(a),
        crate::value::model_keys_unique(b),
        forall|k: Seq<char>| !(model_has_key(a, k) && model_has_key(b, k)),
    ensures
        crate::value::model_keys_unique(a + b),
{
    let m = a + b;
    assert forall|i: int, j: int| 0 <= i < j < m.len() implies m[i].0 != m[j].0 by {
        if m[i].0 == m[j].0 {
            if j < a.len() {
                assert(a[i].0 == a[j].0);
            } else if i >= a.len() {
                assert(b[i - a.len()].0 == b[j - a.len()].0);
            } else {
                assert(model_has_key(a, m[i].0));
                assert(model_has_key(b, m[j].0));
            }
        }
    }
}

/// The keys of a group of at most one entry are trivially unique, and
/// the group holds a key only if it is that entry's key.
proof fn lemma_small_group_key(p: Seq<(Seq<char>, ValueModel)>, k: Seq<char>)
    requires
        p.len() <= 2,
        forall|i: int, j: int| 0 <= i < j < p.len() ==> p[i].0 != p[j].0,
    ensures
        crate::value::model_keys_unique(p),
        model_has_key(p, k) ==> exists|i: int| 0 <= i < p.len() && p[i].0 == k,
{
}

/// Key-uniqueness of the canonical dictionary: the ten top-level keys
/// are pairwise distinct, and each elision rule emits its key at most
/// once, so the glyph dictionary is always a key-unique mapping.
#[verifier::rlimit(100)]
pub proof fn lemma_glyph_dict_keys_unique(g: GlyphModel)
    ensures
        crate::value::model_keys_unique(glyph_dict(g)),
{
    reveal_strlit("unicodes");
    reveal_strlit("height");
    reveal_strlit("width");
    reveal_strlit("image");
    reveal_strlit("anchors");
    reveal_strlit("guidelines");
    reveal_strlit("lib");
    reveal_strlit("contours");
    reveal_strlit("components");
    reveal_strlit("note");
    assert("unicodes"@.len() == 8 && "height"@.len() == 6 && "width"@.len() == 5
        && "image"@.len() == 5 && "anchors"@.len() == 7 && "guidelines"@.len() == 10
        && "lib"@.len() == 3 && "contours"@.len() == 8 && "components"@.len() == 10
        && "note"@.len() == 4);
    assert("width"@[0] == 'w' && "image"@[0] == 'i');
    assert("unicodes"@[0] == 'u' && "contours"@[0] == 'c');
    assert("guidelines"@[0] == 'g' && "components"@[0] == 'c');
    let unicodes_part = if g.codepoints.len() > 0 {
        seq![
            (
                "unicodes"@,
                ValueModel::Sequence(
                    codepoint_values_upto(g.codepoints, g.codepoints.len() as int),
                ),
            ),
        ]
    } else {
        Seq::<(Seq<char>, ValueModel)>::empty()
    };
    let height_part = if !g.height.spec_is_zero() {
        seq![("height"@, ValueModel::Real(g.height))]
    } else {
        Seq::<(Seq<char>, ValueModel)>::empty()
    };
    let width_part = if !g.width.spec_is_zero() {
        seq![("width"@, ValueModel::Real(g.width))]
    } else {
        Seq::<(Seq<char>, ValueModel)>::empty()
    };
    let image_part = match g.image {
        Option::Some(img) => seq![("image"@, ValueModel::Mapping(image_dict(img)))],
        Option::None => Seq::<(Seq<char>, ValueModel)>::empty(),
    };
    let anchors_part = if g.anchors.len() > 0 {
        seq![
            (
                "anchors"@,
                ValueModel::Sequence(anchor_values_upto(g.anchors, g.anchors.len() as int)),
            ),
        ]
    } else {
        Seq::<(Seq<char>, ValueModel)>::empty()
    };
    let guidelines_part = if g.guidelines.len() > 0 {
        seq![
            (
                "guidelines"@,
                ValueModel::Sequence(
                    guideline_values_upto(g.guidelines, g.guidelines.len() as int),
                ),
            ),
        ]
    } else {
        Seq::<(Seq<char>, ValueModel)>::empty()
    };
    let lib_part = lib_entry(g);
    let outline_part = seq![
        (
            "contours"@,
            ValueModel::Sequence(contour_values_upto(g.contours, g.contours.len() as int)),
        ),
        (
            "components"@,
            ValueModel::Sequence(component_values_upto(g.components, g.components.len() as int)),
        ),
    ];
    let note_part = opt_text_entry("note"@, g.note);
    assert(glyph_dict(g) == unicodes_part + height_part + width_part + image_part + anchors_part + guidelines_part + lib_part + outline_part + note_part);
    let upto_height = unicodes_part + height_part;
    lemma_keys_unique_add(unicodes_part, height_part);
    assert forall|k: Seq<char>| model_has_key(upto_height, k) implies k == "unicodes"@ || k
        == "height"@ by {
        lemma_has_key_add(unicodes_part, height_part, k);
        lemma_small_group_key(unicodes_part, k);
        lemma_small_group_key(height_part, k);
    }
    let upto_width = upto_height + width_part;
    lemma_keys_unique_add(upto_height, width_part);
    assert forall|k: Seq<char>| model_has_key(upto_width, k) implies k == "unicodes"@ || k == "height"@
        || k == "width"@ by {
        lemma_has_key_add(upto_height, width_part, k);
        lemma_small_group_key(width_part, k);
    }
    let upto_image = upto_width + image_part;
    lemma_keys_unique_add(upto_width, image_part);
    assert forall|k: Seq<char>| model_has_key(upto_image, k) implies k == "unicodes"@ || k == "height"@
        || k == "width"@ || k == "image"@ by {
        lemma_has_key_add(upto_width, image_part, k);
        lemma_small_group_key(image_part, k);
    }
    let upto_anchors = upto_image + anchors_part;
    lemma_keys_unique_add(upto_image, anchors_part);
    assert forall|k: Seq<char>| model_has_key(upto_anchors, k) implies k == "unicodes"@ || k == "height"@
        || k == "width"@ || k == "image"@ || k == "anchors"@ by {
        lemma_has_key_add(upto_image, anchors_part, k);
        lemma_small_group_key(anchors_part, k);
    }
    let upto_guidelines = upto_anchors + guidelines_part;
    lemma_keys_unique_add(upto_anchors, guidelines_part);
    assert forall|k: Seq<char>| model_has_key(upto_guidelines, k) implies k == "unicodes"@ || k == "height"@
        || k == "width"@ || k == "image"@ || k == "anchors"@ || k == "guidelines"@ by {
        lemma_has_key_add(upto_anchors, guidelines_part, k);
        lemma_small_group_key(guidelines_part, k);
    }
    let upto_lib = upto_guidelines + lib_part;
    lemma_keys_unique_add(upto_guidelines, lib_part);
    assert forall|k: Seq<char>| model_has_key(upto_lib, k) implies k == "unicodes"@ || k == "height"@
        || k == "width"@ || k == "image"@ || k == "anchors"@ || k == "guidelines"@ || k
        == "lib"@ by {
        lemma_has_key_add(upto_guidelines, lib_part, k);
        lemma_small_group_key(lib_part, k);
    }
    let upto_outline = upto_lib + outline_part;
    assert(outline_part[0].0 != outline_part[1].0);
    lemma_keys_unique_add(upto_lib, outline_part);
    assert forall|k: Seq<char>| model_has_key(upto_outline, k) implies k == "unicodes"@ || k == "height"@
        || k == "width"@ || k == "image"@ || k == "anchors"@ || k == "guidelines"@ || k == "lib"@
        || k == "contours"@ || k == "components"@ by {
        lemma_has_key_add(upto_lib, outline_part, k);
        lemma_small_group_key(outline_part, k);
    }
    lemma_keys_unique_add(upto_outline, note_part);
    assert(crate::value::model_keys_unique(upto_outline + note_part));
    assert(glyph_dict(g) =~= upto_outline + note_part);
}

} // verus!

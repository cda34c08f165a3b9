//! The object-library consolidator: collects each sub-object's optional
//! attached library into one map keyed by object identifier.
//!
//! The visit order is fixed: anchors, then guidelines, then contours —
//! each contour followed by its points in sequence order — then
//! components.  A sub-object contributes exactly when its attached
//! library is non-empty.  Every contributing sub-object must carry an
//! identifier, and no identifier may repeat: either violation is
//! corrupt input and fails the consolidation rather than dropping or
//! overwriting a library.

use vstd::prelude::*;

use crate::errors::{CorruptInput, CorruptInputModel, ObjectKind};
use crate::glyph::{
    seq_views, AnchorModel, ComponentModel, ContourModel, ContourPointModel, Glyph, GlyphModel,
    GuidelineModel,
};
use crate::pvalue::{
    clone_plist_entries, lemma_plist_entry_models_upto, plist_entry_models, PlistModel,
    PlistValue,
};

verus! {

broadcast use vstd::std_specs::vec::group_vec_axioms;

/// One collected object library: the kind of the sub-object it came
/// from, the sub-object's identifier if it has one, and the library.
pub struct ObjectLib {
    pub kind: ObjectKind,
    pub identifier: Option<String>,
    pub lib: Vec<(String, PlistValue)>,
}

/// The mathematical model of an [`ObjectLib`].
#[verifier::ext_equal]
pub struct ObjectLibModel {
    pub kind: ObjectKind,
    pub identifier: Option<Seq<char>>,
    pub lib: Seq<(Seq<char>, PlistModel)>,
}

impl View for ObjectLib {
    type V = ObjectLibModel;

    open spec fn view(&self) -> ObjectLibModel {
        ObjectLibModel {
            kind: self.kind,
            identifier: crate::glyph::opt_text_view(self.identifier),
            lib: plist_entry_models(self.lib@),
        }
    }
}

/// The entries an anchor contributes: one when its library is non-empty.
pub open spec fn anchor_entries(a: AnchorModel) -> Seq<ObjectLibModel> {
    if a.lib.len() > 0 {
        seq![ObjectLibModel { kind: ObjectKind::Anchor, identifier: a.identifier, lib: a.lib }]
    } else {
        Seq::empty()
    }
}

/// The entries a guideline contributes.
pub open spec fn guideline_entries(g: GuidelineModel) -> Seq<ObjectLibModel> {
    if g.lib.len() > 0 {
        seq![ObjectLibModel { kind: ObjectKind::Guideline, identifier: g.identifier, lib: g.lib }]
    } else {
        Seq::empty()
    }
}

/// The entries a contour point contributes.
pub open spec fn point_entries(p: ContourPointModel) -> Seq<ObjectLibModel> {
    if p.lib.len() > 0 {
        seq![ObjectLibModel { kind: ObjectKind::Point, identifier: p.identifier, lib: p.lib }]
    } else {
        Seq::empty()
    }
}

/// The entries a component contributes.
pub open spec fn component_entries(c: ComponentModel) -> Seq<ObjectLibModel> {
    if c.lib.len() > 0 {
        seq![ObjectLibModel { kind: ObjectKind::Component, identifier: c.identifier, lib: c.lib }]
    } else {
        Seq::empty()
    }
}

/// The entry a contour contributes for itself, before its points.
pub open spec fn contour_own_entries(c: ContourModel) -> Seq<ObjectLibModel> {
    if c.lib.len() > 0 {
        seq![ObjectLibModel { kind: ObjectKind::Contour, identifier: c.identifier, lib: c.lib }]
    } else {
        Seq::empty()
    }
}

/// The entries of the first `n` points of a contour.
pub open spec fn points_entries_upto(s: Seq<ContourPointModel>, n: int) -> Seq<ObjectLibModel>
    recommends
        0 <= n <= s.len(),
    decreases n,
{
    if n <= 0 || n > s.len() {
        Seq::empty()
    } else {
        points_entries_upto(s, n - 1) + point_entries(s[n - 1])
    }
}

/// The entries a contour contributes: its own, then its points'.
pub open spec fn contour_entries(c: ContourModel) -> Seq<ObjectLibModel> {
    contour_own_entries(c) + points_entries_upto(c.points, c.points.len() as int)
}

/// The entries of the first `n` anchors.
pub open spec fn anchors_entries_upto(s: Seq<AnchorModel>, n: int) -> Seq<ObjectLibModel>
    recommends
        0 <= n <= s.len(),
    decreases n,
{
    if n <= 0 || n > s.len() {
        Seq::empty()
    } else {
        anchors_entries_upto(s, n - 1) + anchor_entries(s[n - 1])
    }
}

/// The entries of the first `n` guidelines.
pub open spec fn guidelines_entries_upto(s: Seq<GuidelineModel>, n: int) -> Seq<ObjectLibModel>
    recommends
        0 <= n <= s.len(),
    decreases n,
{
    if n <= 0 || n > s.len() {
        Seq::empty()
    } else {
        guidelines_entries_upto(s, n - 1) + guideline_entries(s[n - 1])
    }
}

/// The entries of the first `n` contours, points included.
pub open spec fn contours_entries_upto(s: Seq<ContourModel>, n: int) -> Seq<ObjectLibModel>
    recommends
        0 <= n <= s.len(),
    decreases n,
{
    if n <= 0 || n > s.len() {
        Seq::empty()
    } else {
        contours_entries_upto(s, n - 1) + contour_entries(s[n - 1])
    }
}

/// The entries of the first `n` components.
pub open spec fn components_entries_upto(s: Seq<ComponentModel>, n: int) -> Seq<ObjectLibModel>
    recommends
        0 <= n <= s.len(),
    decreases n,
{
    if n <= 0 || n > s.len() {
        Seq::empty()
    } else {
        components_entries_upto(s, n - 1) + component_entries(s[n - 1])
    }
}

/// Every object library of the glyph, in the fixed visit order: anchors,
/// guidelines, contours (each with its points), components.
pub open spec fn object_entries(g: GlyphModel) -> Seq<ObjectLibModel> {
    anchors_entries_upto(g.anchors, g.anchors.len() as int) + guidelines_entries_upto(
        g.guidelines,
        g.guidelines.len() as int,
    ) + contours_entries_upto(g.contours, g.contours.len() as int) + components_entries_upto(
        g.components,
        g.components.len() as int,
    )
}

/// Whether an earlier entry already uses this entry's identifier.
pub open spec fn has_duplicate_before(es: Seq<ObjectLibModel>, i: int) -> bool {
    exists|j: int| 0 <= j < i && (#[trigger] es[j]).identifier == es[i].identifier
}

/// Whether the entry at `i` violates the identifier rules: it has no
/// identifier, or repeats an earlier entry's identifier.
pub open spec fn violation_at(es: Seq<ObjectLibModel>, i: int) -> bool {
    es[i].identifier is None || has_duplicate_before(es, i)
}

/// The index of the first violating entry at or after `i`, or `es.len()`
/// when none violates.
pub open spec fn first_violation(es: Seq<ObjectLibModel>, i: int) -> int
    recommends
        0 <= i <= es.len(),
    decreases es.len() - i,
{
    if i < 0 || i >= es.len() {
        es.len() as int
    } else if violation_at(es, i) {
        i
    } else {
        first_violation(es, i + 1)
    }
}

/// Whether an entry sequence passes the identifier rules whole.
pub open spec fn entries_ok(es: Seq<ObjectLibModel>) -> bool {
    first_violation(es, 0) == es.len()
}

/// The consolidated map of the first `n` entries: identifier to library.
pub open spec fn consolidated_upto(es: Seq<ObjectLibModel>, n: int) -> Seq<
    (Seq<char>, PlistModel),
>
    recommends
        0 <= n <= es.len(),
    decreases n,
{
    if n <= 0 || n > es.len() {
        Seq::empty()
    } else {
        consolidated_upto(es, n - 1).push((es[n - 1].identifier->0, PlistModel::Dict(es[n - 1].lib)))
    }
}

/// The corrupt-input finding for the first violating entry.
pub open spec fn entries_error(es: Seq<ObjectLibModel>) -> CorruptInputModel
    recommends
        !entries_ok(es),
{
    let k = first_violation(es, 0);
    if es[k].identifier is None {
        CorruptInputModel::MissingIdentifier(es[k].kind)
    } else {
        CorruptInputModel::DuplicateIdentifier(es[k].kind, es[k].identifier->0)
    }
}

/// Whether consolidation succeeds on the glyph.
pub open spec fn consolidate_ok(g: GlyphModel) -> bool {
    entries_ok(object_entries(g))
}

/// The consolidated object-library map of the glyph.
pub open spec fn consolidated(g: GlyphModel) -> Seq<(Seq<char>, PlistModel)> {
    consolidated_upto(object_entries(g), object_entries(g).len() as int)
}

/// The corrupt-input finding consolidation fails with.
pub open spec fn consolidate_error(g: GlyphModel) -> CorruptInputModel
    recommends
        !consolidate_ok(g),
{
    entries_error(object_entries(g))
}

/// `first_violation` finds the least violating index: nothing before it
/// violates, and the index itself — when in range — does.
pub proof fn lemma_first_violation(es: Seq<ObjectLibModel>, i: int)
    requires
        0 <= i <= es.len(),
    ensures
        i <= first_violation(es, i) <= es.len(),
        forall|j: int| i <= j < first_violation(es, i) ==> !violation_at(es, j),
        first_violation(es, i) < es.len() ==> violation_at(es, first_violation(es, i)),
    decreases es.len() - i,
{
    if i < es.len() && !violation_at(es, i) {
        lemma_first_violation(es, i + 1);
    }
}

/// When nothing before `k` violates and `k` does, `k` is exactly the
/// first violating index.
pub proof fn lemma_first_violation_is(es: Seq<ObjectLibModel>, i: int, k: int)
    requires
        0 <= i <= k < es.len(),
        forall|j: int| i <= j < k ==> !violation_at(es, j),
        violation_at(es, k),
    ensures
        first_violation(es, i) == k,
    decreases k - i,
{
    if i < k {
        lemma_first_violation_is(es, i + 1, k);
    }
}

/// When nothing violates, the first violating index is the length.
pub proof fn lemma_first_violation_none(es: Seq<ObjectLibModel>, i: int)
    requires
        0 <= i <= es.len(),
        forall|j: int| i <= j < es.len() ==> !violation_at(es, j),
    ensures
        first_violation(es, i) == es.len(),
    decreases es.len() - i,
{
    if i < es.len() {
        lemma_first_violation_none(es, i + 1);
    }
}

/// The consolidated prefix has one slot per entry, pairing the entry's
/// identifier with its library as a dictionary value.
pub proof fn lemma_consolidated_upto(es: Seq<ObjectLibModel>, n: int)
    requires
        0 <= n <= es.len(),
    ensures
        consolidated_upto(es, n).len() == n,
        forall|i: int|
            0 <= i < n ==> consolidated_upto(es, n)[i] == (
                es[i].identifier->0,
                PlistModel::Dict(es[i].lib),
            ),
    decreases n,
{
    if n > 0 {
        lemma_consolidated_upto(es, n - 1);
    }
}

/// Consolidation law: the consolidator is a pure function of the glyph,
/// so two runs on the same unmutated glyph yield structurally equal maps.
pub proof fn lemma_consolidate_idempotent(
    g: GlyphModel,
    m1: Seq<(Seq<char>, PlistModel)>,
    m2: Seq<(Seq<char>, PlistModel)>,
)
    requires
        consolidate_ok(g),
        m1 == consolidated(g),
        m2 == consolidated(g),
    ensures
        m1 == m2,
{
}

/// Uniqueness law: when two collected sub-objects share one identifier —
/// both carrying non-empty libraries, so both stand among the glyph's
/// object entries — consolidation fails rather than overwrite.
pub proof fn lemma_duplicate_identifier_fails(g: GlyphModel, i: int, j: int)
    requires
        0 <= i < j < object_entries(g).len(),
        object_entries(g)[i].identifier is Some,
        object_entries(g)[j].identifier == object_entries(g)[i].identifier,
    ensures
        !consolidate_ok(g),
{
    let es = object_entries(g);
    assert(violation_at(es, j));
    lemma_first_violation(es, 0);
    if first_violation(es, 0) == es.len() {
        assert(!violation_at(es, j));
    }
}

/// A copy of an optional identifier.
fn clone_opt_string(o: &Option<String>) -> (r: Option<String>)
    ensures
        crate::glyph::opt_text_view(r) == crate::glyph::opt_text_view(*o),
{
    match o {
        Option::Some(s) => Option::Some(s.clone()),
        Option::None => Option::None,
    }
}

/// Appends the anchors' object libraries, in order.
#[verifier::loop_isolation(false)]
fn push_anchor_libs(v: &mut Vec<ObjectLib>, anchors: &Vec<crate::glyph::Anchor>)
    ensures
        seq_views(final(v)@) == seq_views(old(v)@) + anchors_entries_upto(
            seq_views(anchors@),
            anchors@.len() as int,
        ),
{
    let ghost base = seq_views(old(v)@);
    let ghost s = seq_views(anchors@);
    let mut i: usize = 0;
    while i < anchors.len()
        invariant
            i <= anchors.len(),
            seq_views(v@) =~~= base + anchors_entries_upto(s, i as int),
        decreases anchors.len() - i,
    {
        let a = &anchors[i];
        proof {
            lemma_plist_entry_models_upto(a.lib@, a.lib@.len() as int);
        }
        if a.lib.len() > 0 {
            v.push(
                ObjectLib {
                    kind: ObjectKind::Anchor,
                    identifier: clone_opt_string(&a.identifier),
                    lib: clone_plist_entries(&a.lib),
                },
            );
        }
        proof {
            let prev = base + anchors_entries_upto(s, i as int);
            assert(seq_views(v@) =~~= prev + anchor_entries(s[i as int]));
            assert(seq_views(v@) =~~= base + anchors_entries_upto(s, i + 1));
        }
        i = i + 1;
    }
}

/// Appends the guidelines' object libraries, in order.
#[verifier::loop_isolation(false)]
fn push_guideline_libs(v: &mut Vec<ObjectLib>, guidelines: &Vec<crate::glyph::Guideline>)
    ensures
        seq_views(final(v)@) == seq_views(old(v)@) + guidelines_entries_upto(
            seq_views(guidelines@),
            guidelines@.len() as int,
        ),
{
    let ghost base = seq_views(old(v)@);
    let ghost s = seq_views(guidelines@);
    let mut i: usize = 0;
    while i < guidelines.len()
        invariant
            i <= guidelines.len(),
            seq_views(v@) =~~= base + guidelines_entries_upto(s, i as int),
        decreases guidelines.len() - i,
    {
        let gl = &guidelines[i];
        proof {
            lemma_plist_entry_models_upto(gl.lib@, gl.lib@.len() as int);
        }
        if gl.lib.len() > 0 {
            v.push(
                ObjectLib {
                    kind: ObjectKind::Guideline,
                    identifier: clone_opt_string(&gl.identifier),
                    lib: clone_plist_entries(&gl.lib),
                },
            );
        }
        proof {
            let prev = base + guidelines_entries_upto(s, i as int);
            assert(seq_views(v@) =~~= prev + guideline_entries(s[i as int]));
            assert(seq_views(v@) =~~= base + guidelines_entries_upto(s, i + 1));
        }
        i = i + 1;
    }
}

/// Appends one contour's point object libraries, in order.
#[verifier::loop_isolation(false)]
fn push_point_libs(v: &mut Vec<ObjectLib>, points: &Vec<crate::glyph::ContourPoint>)
    ensures
        seq_views(final(v)@) == seq_views(old(v)@) + points_entries_upto(
            seq_views(points@),
            points@.len() as int,
        ),
{
    let ghost base = seq_views(old(v)@);
    let ghost s = seq_views(points@);
    let mut j: usize = 0;
    while j < points.len()
        invariant
            j <= points.len(),
            seq_views(v@) =~~= base + points_entries_upto(s, j as int),
        decreases points.len() - j,
    {
        let p = &points[j];
        proof {
            lemma_plist_entry_models_upto(p.lib@, p.lib@.len() as int);
        }
        if p.lib.len() > 0 {
            v.push(
                ObjectLib {
                    kind: ObjectKind::Point,
                    identifier: clone_opt_string(&p.identifier),
                    lib: clone_plist_entries(&p.lib),
                },
            );
        }
        proof {
            let prev = base + points_entries_upto(s, j as int);
            assert(seq_views(v@) =~~= prev + point_entries(s[j as int]));
            assert(seq_views(v@) =~~= base + points_entries_upto(s, j + 1));
        }
        j = j + 1;
    }
}

/// Appends the contours' object libraries — each contour's own, then its
/// points' — in order.
#[verifier::loop_isolation(false)]
fn push_contour_libs(v: &mut Vec<ObjectLib>, contours: &Vec<crate::glyph::Contour>)
    ensures
        seq_views(final(v)@) == seq_views(old(v)@) + contours_entries_upto(
            seq_views(contours@),
            contours@.len() as int,
        ),
{
    let ghost base = seq_views(old(v)@);
    let ghost s = seq_views(contours@);
    let mut i: usize = 0;
    while i < contours.len()
        invariant
            i <= contours.len(),
            seq_views(v@) =~~= base + contours_entries_upto(s, i as int),
        decreases contours.len() - i,
    {
        let c = &contours[i];
        proof {
            lemma_plist_entry_models_upto(c.lib@, c.lib@.len() as int);
        }
        if c.lib.len() > 0 {
            v.push(
                ObjectLib {
                    kind: ObjectKind::Contour,
                    identifier: clone_opt_string(&c.identifier),
                    lib: clone_plist_entries(&c.lib),
                },
            );
        }
        let ghost before_points = seq_views(v@);
        proof {
            assert(before_points =~~= base + contours_entries_upto(s, i as int)
                + contour_own_entries(s[i as int]));
        }
        push_point_libs(v, &c.points);
        proof {
            assert(c@.points =~~= seq_views(c.points@));
            assert(seq_views(v@) =~~= base + contours_entries_upto(s, i as int)
                + contour_entries(s[i as int]));
            assert(seq_views(v@) =~~= base + contours_entries_upto(s, i + 1));
        }
        i = i + 1;
    }
}

/// Appends the components' object libraries, in order.
#[verifier::loop_isolation(false)]
fn push_component_libs(v: &mut Vec<ObjectLib>, components: &Vec<crate::glyph::Component>)
    ensures
        seq_views(final(v)@) == seq_views(old(v)@) + components_entries_upto(
            seq_views(components@),
            components@.len() as int,
        ),
{
    let ghost base = seq_views(old(v)@);
    let ghost s = seq_views(components@);
    let mut i: usize = 0;
    while i < components.len()
        invariant
            i <= components.len(),
            seq_views(v@) =~~= base + components_entries_upto(s, i as int),
        decreases components.len() - i,
    {
        let cm = &components[i];
        proof {
            lemma_plist_entry_models_upto(cm.lib@, cm.lib@.len() as int);
        }
        if cm.lib.len() > 0 {
            v.push(
                ObjectLib {
                    kind: ObjectKind::Component,
                    identifier: clone_opt_string(&cm.identifier),
                    lib: clone_plist_entries(&cm.lib),
                },
            );
        }
        proof {
            let prev = base + components_entries_upto(s, i as int);
            assert(seq_views(v@) =~~= prev + component_entries(s[i as int]));
            assert(seq_views(v@) =~~= base + components_entries_upto(s, i + 1));
        }
        i = i + 1;
    }
}

/// Collects every object library of the glyph, in the fixed visit order.
pub fn collect_object_libs(g: &Glyph) -> (v: Vec<ObjectLib>)
    ensures
        seq_views(v@) == object_entries(g@),
{
    let mut v: Vec<ObjectLib> = Vec::new();
    push_anchor_libs(&mut v, &g.anchors);
    push_guideline_libs(&mut v, &g.guidelines);
    push_contour_libs(&mut v, &g.contours);
    push_component_libs(&mut v, &g.components);
    proof {
        assert(seq_views(v@) =~~= object_entries(g@));
    }
    v
}

/// Whether the map already holds an entry under the given key.
fn map_contains_key(m: &Vec<(String, PlistValue)>, key: &String) -> (r: bool)
    ensures
        r == exists|j: int| 0 <= j < m@.len() && (#[trigger] m@[j]).0@ == key@,
{
    let mut j: usize = 0;
    while j < m.len()
        invariant
            j <= m.len(),
            forall|k: int| 0 <= k < j ==> (#[trigger] m@[k]).0@ != key@,
        decreases m.len() - j,
    {
        if m[j].0 == *key {
            return true;
        }
        j = j + 1;
    }
    false
}

/// Checks the identifier rules over collected entries and builds the
/// consolidated map: each entry's identifier mapped to its library as a
/// dictionary value, in collection order.
#[verifier::loop_isolation(false)]
pub fn check_entries(entries: &Vec<ObjectLib>) -> (r: Result<
    Vec<(String, PlistValue)>,
    CorruptInput,
>)
    ensures
        entries_ok(seq_views(entries@)) ==> (r matches Ok(m) && plist_entry_models(m@)
            == consolidated_upto(seq_views(entries@), entries@.len() as int)),
        !entries_ok(seq_views(entries@)) ==> (r matches Err(e) && e@ == entries_error(
            seq_views(entries@),
        )),
{
    let ghost es = seq_views(entries@);
    let mut out: Vec<(String, PlistValue)> = Vec::new();
    let mut idx: usize = 0;
    while idx < entries.len()
        invariant
            idx <= entries.len(),
            out@.len() == idx,
            forall|j: int| 0 <= j < idx ==> !violation_at(es, j),
            forall|j: int|
                0 <= j < idx ==> (#[trigger] out@[j]).0@ == es[j].identifier->0 && out@[j].1@
                    == PlistModel::Dict(es[j].lib),
        decreases entries.len() - idx,
    {
        let e = &entries[idx];
        match &e.identifier {
            Option::None => {
                proof {
                    assert(es[idx as int].identifier is None);
                    assert(violation_at(es, idx as int));
                    lemma_first_violation_is(es, 0, idx as int);
                }
                return Err(CorruptInput::MissingIdentifier(e.kind));
            },
            Option::Some(id) => {
                if map_contains_key(&out, id) {
                    proof {
                        let j = choose|j: int|
                            0 <= j < out@.len() && (#[trigger] out@[j]).0@ == id@;
                        assert(es[idx as int].identifier == Option::Some(id@));
                        assert(!violation_at(es, j));
                        assert(es[j].identifier is Some);
                        assert(es[j].identifier->0 == id@);
                        assert(es[j].identifier == es[idx as int].identifier);
                        assert(has_duplicate_before(es, idx as int));
                        lemma_first_violation_is(es, 0, idx as int);
                    }
                    return Err(CorruptInput::DuplicateIdentifier(e.kind, id.clone()));
                }
                proof {
                    if has_duplicate_before(es, idx as int) {
                        let dup = es[idx as int].identifier;
                        let j = choose|j: int|
                            0 <= j < idx && (#[trigger] es[j]).identifier == dup;
                        assert(out@[j].0@ == es[j].identifier->0);
                        assert(false);
                    }
                    assert(!violation_at(es, idx as int));
                }
                out.push((id.clone(), PlistValue::Dict(clone_plist_entries(&e.lib))));
            },
        }
        idx = idx + 1;
    }
    proof {
        lemma_first_violation_none(es, 0);
        lemma_consolidated_upto(es, es.len() as int);
        lemma_plist_entry_models_upto(out@, out@.len() as int);
        assert(plist_entry_models(out@) =~= consolidated_upto(es, es.len() as int));
    }
    Ok(out)
}

/// Consolidates the glyph's object libraries into one map from object
/// identifier to library, visiting anchors, guidelines, contours (each
/// with its points) and components in that order; fails on a sub-object
/// that carries a library without an identifier or repeats an identifier.
pub fn consolidate(g: &Glyph) -> (r: Result<Vec<(String, PlistValue)>, CorruptInput>)
    ensures
        consolidate_ok(g@) ==> (r matches Ok(m) && plist_entry_models(m@) == consolidated(g@)),
        !consolidate_ok(g@) ==> (r matches Err(e) && e@ == consolidate_error(g@)),
{
    let entries = collect_object_libs(g);
    check_entries(&entries)
}

} // verus!

//! The glyph entity and its sub-objects, as the loader hands them over:
//! plain data, already validated for structural well-formedness.
//!
//! Each identifiable sub-object (anchor, guideline, contour, contour
//! point, component) optionally carries a format-assigned identifier —
//! unique within the glyph — and an attached library, present only when
//! non-empty.  The transcoder borrows a glyph read-only; nothing here is
//! ever mutated by this crate.

use vstd::prelude::*;

use crate::color::Color;
use crate::pvalue::{plist_entry_models, PlistModel, PlistValue};
use crate::reals::Real;

verus! {

/// The view of a sequence of viewable values, element by element.
pub open spec fn seq_views<T: View>(s: Seq<T>) -> Seq<T::V> {
    Seq::new(s.len(), |i: int| s[i].view())
}

/// The view of an optional text value.
pub open spec fn opt_text_view(o: Option<String>) -> Option<Seq<char>> {
    match o {
        Option::Some(s) => Option::Some(s@),
        Option::None => Option::None,
    }
}

/// The view of an optional color: the color's string form.
pub open spec fn opt_color_view(o: Option<Color>) -> Option<Seq<char>> {
    match o {
        Option::Some(c) => Option::Some(c@),
        Option::None => Option::None,
    }
}

/// An affine transformation: two by two linear part plus offset.
#[derive(Clone, Copy, PartialEq, Eq, Structural, Debug)]
pub struct Transform {
    pub x_scale: Real,
    pub xy_scale: Real,
    pub yx_scale: Real,
    pub y_scale: Real,
    pub x_offset: Real,
    pub y_offset: Real,
}

impl Transform {
    /// True exactly of transforms that equal the canonical identity
    /// `(1, 0, 0, 1, 0, 0)` under floating-point comparison.
    pub open spec fn spec_is_identity(self) -> bool {
        self.x_scale.spec_is_one() && self.xy_scale.spec_is_zero() && self.yx_scale.spec_is_zero()
            && self.y_scale.spec_is_one() && self.x_offset.spec_is_zero()
            && self.y_offset.spec_is_zero()
    }

    pub fn is_identity(&self) -> (r: bool)
        ensures
            r == self.spec_is_identity(),
    {
        self.x_scale.is_one() && self.xy_scale.is_zero() && self.yx_scale.is_zero()
            && self.y_scale.is_one() && self.x_offset.is_zero() && self.y_offset.is_zero()
    }

    /// The canonical identity transform.
    pub fn identity() -> (r: Transform)
        ensures
            r.spec_is_identity(),
    {
        Transform {
            x_scale: Real { bits: 0x3f80_0000 },
            xy_scale: Real { bits: 0 },
            yx_scale: Real { bits: 0 },
            y_scale: Real { bits: 0x3f80_0000 },
            x_offset: Real { bits: 0 },
            y_offset: Real { bits: 0 },
        }
    }
}

/// A glyph anchor.
pub struct Anchor {
    pub name: Option<String>,
    pub x: Real,
    pub y: Real,
    pub color: Option<Color>,
    pub identifier: Option<String>,
    /// The anchor's attached library; present only when non-empty.
    pub lib: Vec<(String, PlistValue)>,
}

/// The mathematical model of an [`Anchor`].
#[verifier::ext_equal]
pub struct AnchorModel {
    pub name: Option<Seq<char>>,
    pub x: Real,
    pub y: Real,
    pub color: Option<Seq<char>>,
    pub identifier: Option<Seq<char>>,
    pub lib: Seq<(Seq<char>, PlistModel)>,
}

impl View for Anchor {
    type V = AnchorModel;

    open spec fn view(&self) -> AnchorModel {
        AnchorModel {
            name: opt_text_view(self.name),
            x: self.x,
            y: self.y,
            color: opt_color_view(self.color),
            identifier: opt_text_view(self.identifier),
            lib: plist_entry_models(self.lib@),
        }
    }
}

/// The line a guideline lies on: vertical and horizontal lines carry one
/// coordinate, angled lines carry a point and an angle in degrees.
#[derive(Clone, Copy, PartialEq, Eq, Structural, Debug)]
pub enum GuidelineLine {
    Vertical(Real),
    Horizontal(Real),
    Angled { x: Real, y: Real, degrees: Real },
}

/// A glyph guideline.
pub struct Guideline {
    pub line: GuidelineLine,
    pub name: Option<String>,
    pub color: Option<Color>,
    pub identifier: Option<String>,
    /// The guideline's attached library; present only when non-empty.
    pub lib: Vec<(String, PlistValue)>,
}

/// The mathematical model of a [`Guideline`].
#[verifier::ext_equal]
pub struct GuidelineModel {
    pub line: GuidelineLine,
    pub name: Option<Seq<char>>,
    pub color: Option<Seq<char>>,
    pub identifier: Option<Seq<char>>,
    pub lib: Seq<(Seq<char>, PlistModel)>,
}

impl View for Guideline {
    type V = GuidelineModel;

    open spec fn view(&self) -> GuidelineModel {
        GuidelineModel {
            line: self.line,
            name: opt_text_view(self.name),
            color: opt_color_view(self.color),
            identifier: opt_text_view(self.identifier),
            lib: plist_entry_models(self.lib@),
        }
    }
}

/// The type of a contour point.
#[derive(Clone, Copy, PartialEq, Eq, Structural, Debug)]
pub enum PointType {
    /// The first point of an open contour.
    Move,
    /// A straight line from the previous point.
    Line,
    /// A control point of a curve segment.
    OffCurve,
    /// The end point of a cubic curve segment.
    Curve,
    /// The end point of a quadratic curve segment.
    QCurve,
}

/// A point of a contour.
pub struct ContourPoint {
    pub name: Option<String>,
    pub x: Real,
    pub y: Real,
    pub typ: PointType,
    pub smooth: bool,
    pub identifier: Option<String>,
    /// The point's attached library; present only when non-empty.
    pub lib: Vec<(String, PlistValue)>,
}

/// The mathematical model of a [`ContourPoint`].
#[verifier::ext_equal]
pub struct ContourPointModel {
    pub name: Option<Seq<char>>,
    pub x: Real,
    pub y: Real,
    pub typ: PointType,
    pub smooth: bool,
    pub identifier: Option<Seq<char>>,
    pub lib: Seq<(Seq<char>, PlistModel)>,
}

impl View for ContourPoint {
    type V = ContourPointModel;

    open spec fn view(&self) -> ContourPointModel {
        ContourPointModel {
            name: opt_text_view(self.name),
            x: self.x,
            y: self.y,
            typ: self.typ,
            smooth: self.smooth,
            identifier: opt_text_view(self.identifier),
            lib: plist_entry_models(self.lib@),
        }
    }
}

/// A contour: an ordered sequence of points.
pub struct Contour {
    pub points: Vec<ContourPoint>,
    pub identifier: Option<String>,
    /// The contour's attached library; present only when non-empty.
    pub lib: Vec<(String, PlistValue)>,
}

/// The mathematical model of a [`Contour`].
#[verifier::ext_equal]
pub struct ContourModel {
    pub points: Seq<ContourPointModel>,
    pub identifier: Option<Seq<char>>,
    pub lib: Seq<(Seq<char>, PlistModel)>,
}

impl View for Contour {
    type V = ContourModel;

    open spec fn view(&self) -> ContourModel {
        ContourModel {
            points: seq_views(self.points@),
            identifier: opt_text_view(self.identifier),
            lib: plist_entry_models(self.lib@),
        }
    }
}

/// A component: a reference to another glyph, placed by a transform.
pub struct Component {
    pub base: String,
    pub transform: Transform,
    pub identifier: Option<String>,
    /// The component's attached library; present only when non-empty.
    pub lib: Vec<(String, PlistValue)>,
}

/// The mathematical model of a [`Component`].
#[verifier::ext_equal]
pub struct ComponentModel {
    pub base: Seq<char>,
    pub transform: Transform,
    pub identifier: Option<Seq<char>>,
    pub lib: Seq<(Seq<char>, PlistModel)>,
}

impl View for Component {
    type V = ComponentModel;

    open spec fn view(&self) -> ComponentModel {
        ComponentModel {
            base: self.base@,
            transform: self.transform,
            identifier: opt_text_view(self.identifier),
            lib: plist_entry_models(self.lib@),
        }
    }
}

/// An embedded image reference.
pub struct Image {
    pub file_name: String,
    pub transform: Transform,
    pub color: Option<Color>,
}

/// The mathematical model of an [`Image`].
#[verifier::ext_equal]
pub struct ImageModel {
    pub file_name: Seq<char>,
    pub transform: Transform,
    pub color: Option<Seq<char>>,
}

impl View for Image {
    type V = ImageModel;

    open spec fn view(&self) -> ImageModel {
        ImageModel {
            file_name: self.file_name@,
            transform: self.transform,
            color: opt_color_view(self.color),
        }
    }
}

/// The view of an optional image.
pub open spec fn opt_image_view(o: Option<Image>) -> Option<ImageModel> {
    match o {
        Option::Some(img) => Option::Some(img@),
        Option::None => Option::None,
    }
}

/// A glyph, fully loaded and read-only to this crate.
pub struct Glyph {
    pub name: String,
    /// Unicode codepoints, insertion order kept; may be empty.
    pub codepoints: Vec<u32>,
    pub height: Real,
    pub width: Real,
    pub image: Option<Image>,
    pub note: Option<String>,
    pub anchors: Vec<Anchor>,
    pub guidelines: Vec<Guideline>,
    pub contours: Vec<Contour>,
    pub components: Vec<Component>,
    /// The glyph's own library.
    pub lib: Vec<(String, PlistValue)>,
}

/// The mathematical model of a [`Glyph`].
#[verifier::ext_equal]
pub struct GlyphModel {
    pub name: Seq<char>,
    pub codepoints: Seq<u32>,
    pub height: Real,
    pub width: Real,
    pub image: Option<ImageModel>,
    pub note: Option<Seq<char>>,
    pub anchors: Seq<AnchorModel>,
    pub guidelines: Seq<GuidelineModel>,
    pub contours: Seq<ContourModel>,
    pub components: Seq<ComponentModel>,
    pub lib: Seq<(Seq<char>, PlistModel)>,
}

impl View for Glyph {
    type V = GlyphModel;

    open spec fn view(&self) -> GlyphModel {
        GlyphModel {
            name: self.name@,
            codepoints: self.codepoints@,
            height: self.height,
            width: self.width,
            image: opt_image_view(self.image),
            note: opt_text_view(self.note),
            anchors: seq_views(self.anchors@),
            guidelines: seq_views(self.guidelines@),
            contours: seq_views(self.contours@),
            components: seq_views(self.components@),
            lib: plist_entry_models(self.lib@),
        }
    }
}

} // verus!

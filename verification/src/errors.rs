//! The error taxonomy of the transcoder.
//!
//! Conversion failures name the top-level attribute key under which the
//! offending value sat; consolidation failures say which kind of sub-object
//! violated the identifier rules; and the transcoder wraps either kind into
//! a composite error carrying the owning glyph's name and the library
//! section that triggered it.

use vstd::prelude::*;

use vstd::string::StringExecFns;

verus! {

/// A failure of the property-list value converter.
#[derive(Debug, PartialEq, Eq)]
pub enum ConvertError {
    /// An integer's magnitude lies outside both the signed and the unsigned
    /// 64-bit ranges.  Carries the originating top-level attribute key.
    UnconvertibleInteger(String),
    /// A value variant with no defined mapping (a date or a UID) was
    /// encountered.  Carries the originating top-level attribute key.
    UnhandledFormat(String),
}

/// The mathematical model of a [`ConvertError`].
#[verifier::ext_equal]
pub enum ConvertErrorModel {
    UnconvertibleInteger(Seq<char>),
    UnhandledFormat(Seq<char>),
}

impl View for ConvertError {
    type V = ConvertErrorModel;

    open spec fn view(&self) -> ConvertErrorModel {
        match self {
            ConvertError::UnconvertibleInteger(k) => ConvertErrorModel::UnconvertibleInteger(k@),
            ConvertError::UnhandledFormat(k) => ConvertErrorModel::UnhandledFormat(k@),
        }
    }
}

/// The kind of an identifiable sub-object of a glyph.
#[derive(Clone, Copy, Debug, PartialEq, Eq, Structural)]
pub enum ObjectKind {
    Anchor,
    Guideline,
    Contour,
    Point,
    Component,
}

/// A corrupt-input finding of the object-library consolidator: a sub-object
/// carries a library without an identifier, or two sub-objects share one.
#[derive(Debug, PartialEq, Eq)]
pub enum CorruptInput {
    /// A sub-object of this kind carries a non-empty library but no
    /// identifier.
    MissingIdentifier(ObjectKind),
    /// A sub-object of this kind repeats an identifier that an earlier
    /// sub-object already used.  Carries the repeated identifier.
    DuplicateIdentifier(ObjectKind, String),
}

/// The mathematical model of a [`CorruptInput`].
#[verifier::ext_equal]
pub enum CorruptInputModel {
    MissingIdentifier(ObjectKind),
    DuplicateIdentifier(ObjectKind, Seq<char>),
}

impl View for CorruptInput {
    type V = CorruptInputModel;

    open spec fn view(&self) -> CorruptInputModel {
        match self {
            CorruptInput::MissingIdentifier(k) => CorruptInputModel::MissingIdentifier(*k),
            CorruptInput::DuplicateIdentifier(k, id) => CorruptInputModel::DuplicateIdentifier(
                *k,
                id@,
            ),
        }
    }
}

/// The library section in which a transcode failure originated.
#[derive(Clone, Copy, Debug, PartialEq, Eq, Structural)]
pub enum LibSection {
    GlyphLib,
    AnchorLib,
    GuidelineLib,
    ContourLib,
    PointLib,
    ComponentLib,
}

/// The section that reports a failure on a sub-object of the given kind.
pub open spec fn section_of_kind(k: ObjectKind) -> LibSection {
    match k {
        ObjectKind::Anchor => LibSection::AnchorLib,
        ObjectKind::Guideline => LibSection::GuidelineLib,
        ObjectKind::Contour => LibSection::ContourLib,
        ObjectKind::Point => LibSection::PointLib,
        ObjectKind::Component => LibSection::ComponentLib,
    }
}

/// The executable counterpart of [`section_of_kind`].
pub fn section_for_kind(k: ObjectKind) -> (s: LibSection)
    ensures
        s == section_of_kind(k),
{
    match k {
        ObjectKind::Anchor => LibSection::AnchorLib,
        ObjectKind::Guideline => LibSection::GuidelineLib,
        ObjectKind::Contour => LibSection::ContourLib,
        ObjectKind::Point => LibSection::PointLib,
        ObjectKind::Component => LibSection::ComponentLib,
    }
}

/// The underlying cause of a transcode failure.
#[derive(Debug, PartialEq, Eq)]
pub enum TranscodeCause {
    /// The property-list value converter failed.
    Conversion(ConvertError),
    /// The object-library consolidator found corrupt input.
    Corrupt(CorruptInput),
}

/// The mathematical model of a [`TranscodeCause`].
#[verifier::ext_equal]
pub enum TranscodeCauseModel {
    Conversion(ConvertErrorModel),
    Corrupt(CorruptInputModel),
}

impl View for TranscodeCause {
    type V = TranscodeCauseModel;

    open spec fn view(&self) -> TranscodeCauseModel {
        match self {
            TranscodeCause::Conversion(e) => TranscodeCauseModel::Conversion(e@),
            TranscodeCause::Corrupt(c) => TranscodeCauseModel::Corrupt(c@),
        }
    }
}

/// A transcode failure: the owning glyph's name, the library section that
/// triggered the failure, and the innermost cause.
#[derive(Debug, PartialEq, Eq)]
pub struct TranscodeError {
    pub glyph_name: String,
    pub section: LibSection,
    pub cause: TranscodeCause,
}

/// The mathematical model of a [`TranscodeError`].
#[verifier::ext_equal]
pub struct TranscodeErrorModel {
    pub glyph_name: Seq<char>,
    pub section: LibSection,
    pub cause: TranscodeCauseModel,
}

impl View for TranscodeError {
    type V = TranscodeErrorModel;

    open spec fn view(&self) -> TranscodeErrorModel {
        TranscodeErrorModel {
            glyph_name: self.glyph_name@,
            section: self.section,
            cause: self.cause@,
        }
    }
}

/// The name of a library section, as it reads in an error message.
pub open spec fn section_text(s: LibSection) -> Seq<char> {
    match s {
        LibSection::GlyphLib => "glyph lib"@,
        LibSection::AnchorLib => "anchor lib"@,
        LibSection::GuidelineLib => "guideline lib"@,
        LibSection::ContourLib => "contour lib"@,
        LibSection::PointLib => "point lib"@,
        LibSection::ComponentLib => "component lib"@,
    }
}

/// The sentence describing the innermost cause of a transcode failure.
pub open spec fn cause_text(c: TranscodeCauseModel) -> Seq<char> {
    match c {
        TranscodeCauseModel::Conversion(ConvertErrorModel::UnconvertibleInteger(k)) =>
            "lib element contains unconvertible integer for key '"@ + k + "'"@,
        TranscodeCauseModel::Conversion(ConvertErrorModel::UnhandledFormat(k)) =>
            "lib element contains unhandled data format for key '"@ + k + "'"@,
        TranscodeCauseModel::Corrupt(CorruptInputModel::MissingIdentifier(_)) =>
            "sub-object carries a lib but no identifier"@,
        TranscodeCauseModel::Corrupt(CorruptInputModel::DuplicateIdentifier(_, id)) =>
            "identifier '"@ + id + "' is used by more than one sub-object"@,
    }
}

/// The single descriptive message of a transcode failure: the owning
/// glyph's name, the failing section, and the innermost cause.
pub open spec fn message_text(e: TranscodeErrorModel) -> Seq<char> {
    "Failed to convert "@ + section_text(e.section) + " data for glyph '"@ + e.glyph_name
        + "': "@ + cause_text(e.cause)
}

impl TranscodeError {
    /// Renders the failure as one descriptive line.
    pub fn message(&self) -> (r: String)
        ensures
            r@ == message_text(self@),
    {
        let mut s = String::new();
        s.append("Failed to convert ");
        match self.section {
            LibSection::GlyphLib => s.append("glyph lib"),
            LibSection::AnchorLib => s.append("anchor lib"),
            LibSection::GuidelineLib => s.append("guideline lib"),
            LibSection::ContourLib => s.append("contour lib"),
            LibSection::PointLib => s.append("point lib"),
            LibSection::ComponentLib => s.append("component lib"),
        }
        s.append(" data for glyph '");
        s.append(self.glyph_name.as_str());
        s.append("': ");
        match &self.cause {
            TranscodeCause::Conversion(ConvertError::UnconvertibleInteger(k)) => {
                s.append("lib element contains unconvertible integer for key '");
                s.append(k.as_str());
                s.append("'");
            },
            TranscodeCause::Conversion(ConvertError::UnhandledFormat(k)) => {
                s.append("lib element contains unhandled data format for key '");
                s.append(k.as_str());
                s.append("'");
            },
            TranscodeCause::Corrupt(CorruptInput::MissingIdentifier(_)) => {
                s.append("sub-object carries a lib but no identifier");
            },
            TranscodeCause::Corrupt(CorruptInput::DuplicateIdentifier(_, id)) => {
                s.append("identifier '");
                s.append(id.as_str());
                s.append("' is used by more than one sub-object");
            },
        }
        proof {
            assert(s@ =~= message_text(self@));
        }
        s
    }
}

} // verus!

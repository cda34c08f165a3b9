//! Colors and the canonical RGBA string formatter.
//!
//! The format writes a color as a comma-separated RGBA string such as
//! `1,0,0,0.5`, each channel between zero and one.  The core does not
//! interpret colors beyond pass-through formatting, so a [`Color`] simply
//! carries that string; whenever a color leaves this crate it is first
//! rendered through the one canonical formatter — `norad`'s, reached by
//! the single trusted wrapper below — which rounds every channel to at
//! most three decimal places.

use vstd::prelude::*;

verus! {

/// A color in its RGBA string form, as the format writes it.
#[derive(Debug, PartialEq, Eq)]
pub struct Color {
    pub text: String,
}

impl View for Color {
    type V = Seq<char>;

    open spec fn view(&self) -> Seq<char> {
        self.text@
    }
}

/// The text that the canonical RGBA formatter renders for a color given
/// in its string form, or nothing when the string is not a well-formed
/// color (malformed, or a channel outside zero to one).
pub uninterp spec fn rgba_text_of(color: Seq<char>) -> Option<Seq<char>>;

/// The view of an optional rendered string.
pub open spec fn opt_string_view(o: Option<String>) -> Option<Seq<char>> {
    match o {
        Option::Some(s) => Option::Some(s@),
        Option::None => Option::None,
    }
}

/// Renders a color as its canonical RGBA string.
///
/// Relies on `norad::Color`'s `FromStr` impl, which accepts exactly the
/// four-channel strings with every channel between zero and one, and on
/// `norad::Color::to_rgba_string`, whose text depends on the parsed
/// channel values alone.
#[verifier::external_body]
pub fn format_rgba(c: &Color) -> (r: Option<String>)
    ensures
        opt_string_view(r) == rgba_text_of(c@),
{
    match c.text.parse::<norad::Color>() {
        Ok(color) => Some(color.to_rgba_string()),
        Err(_) => None,
    }
}

} // verus!

//! Transcoding of font glyph data into a portable dynamic value model.
//!
//! The crate takes a fully loaded glyph — outline, metadata and arbitrary
//! property-list library data — and builds its canonical dictionary
//! representation as a tree of dynamic values, applying the format's
//! default-value elision rules.  The dictionary can further be encoded
//! into a self-describing, platform-independent byte stream.

pub mod color;
pub mod consolidate;
pub mod convert;
pub mod encode;
pub mod errors;
pub mod glyph;
pub mod pvalue;
pub mod reals;
pub mod transcode;
pub mod value;

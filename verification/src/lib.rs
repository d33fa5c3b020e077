//! Conversion of Shift_JIS documents to Unicode text with gaiji annotations
//! resolved.
//!
//! A gaiji annotation is a bracketed note such as `※［＃…第3水準1-84-22］`
//! that stands for a character the legacy encoding cannot hold. The
//! annotation names the character either by its plane, row and cell in
//! JIS X 0213 or by its Unicode code point. [`convert_content`] decodes a
//! byte buffer and replaces every annotation that can be resolved with the
//! character it names; everything else is kept as it is.
//!
//! The table of JIS X 0213 locators is a [`GaijiTable`], read from the
//! mapping file by [`GaijiTable::from_reference`]. The patterns that find
//! and read annotations are compiled once into an [`AnnotationPatterns`].
pub mod annotation;
pub mod convert;
pub mod laws;
pub mod numeral;
pub mod pattern;
pub mod reference;
pub mod table;
pub mod text;

pub use crate::annotation::get_gaiji;
pub use crate::annotation::Annotation;
pub use crate::convert::convert_content;
pub use crate::convert::substitute;
pub use crate::pattern::AnnotationPatterns;
pub use crate::pattern::PatternError;
pub use crate::table::GaijiTable;

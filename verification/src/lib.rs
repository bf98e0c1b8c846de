//! A verified parser of `.SRCINFO` package metadata.
//!
//! A `.SRCINFO` text is a sequence of lines `key = value`. The lines before the first
//! `pkgname` line describe the package base; each `pkgname` line opens the section of one
//! package. [`ParsedSrcinfo::parse`] reads such a text into a [`ParsedSrcinfo`]: the fields
//! of the base section and, by package name and in the order of the text, the fields of each
//! derivative section. Every stored value is a slice of the input.
//!
//! The parse never fails as a whole. It returns what it has read together with the error
//! that stopped it, if one did: a line without `=`, or a second value for a single-valued
//! field. Unknown keys and empty values are passed over.
//!
//! What the parse returns is stated by [`srcinfo::parse_spec`], a function of the characters
//! of the text, and proved for every text. [`laws`] holds what follows from it for every
//! document.
pub mod field;
pub mod field_name;
pub mod laws;
pub mod ordered_map;
pub mod partial;
pub(crate) mod sealed;
pub mod section;
pub mod slice;
pub mod srcinfo;
pub mod text;
pub mod value;

pub use field::ParsedField;
pub use field_name::AnyFieldName;
pub use field_name::BaseFieldName;
pub use field_name::DerivativeFieldName;
pub use field_name::FieldName;
pub use field_name::HeaderFieldName;
pub use partial::PartialParseResult;
pub use section::ParsedDerivativeAlreadySetError;
pub use section::ParsedSrcinfoAlreadySetError;
pub use section::ParsedSrcinfoBaseSection;
pub use section::ParsedSrcinfoDerivativeSection;
pub use srcinfo::ParsedSrcinfo;
pub use srcinfo::Section;
pub use srcinfo::SrcinfoParseError;
pub use srcinfo::SrcinfoParseReturn;
pub use value::Name;

//! Extraction of a normalized, strongly-typed bitfield description from a
//! device-description XML element.
//!
//! The core of the library is the conversion of a textual bitmask into a bit
//! range together with a contiguity classification, the resolution of the
//! textual access specifier into an access mode, and the assembly of the
//! final `Field` entity with a structured error taxonomy.

pub mod atdf;
pub mod chip;
pub mod util;
pub mod xml;

//! The error taxonomy of field construction.  Every failure is fatal for
//! the field being built and carries the originating XML element, so a
//! caller can report where in the document the bad input stands.

use vstd::prelude::*;

verus! {

/// A structured failure while building a field.
#[derive(Debug)]
pub enum Error {
    /// A required attribute (`name` or `mask`) is absent.
    MissingRequiredAttribute { attribute: String, element: xmltree::Element },
    /// The mask is not convertible to a bit range: not a numeric literal,
    /// wider than 64 bits, or zero.
    UnsupportedMask { mask: String, element: xmltree::Element },
    /// The access specifier holds a value outside `R`, `RW` and the empty
    /// string.
    UnsupportedAccessMode { value: String, element: xmltree::Element },
    /// The element is not the expected tag.
    WrongElementKind { expected: String, found: String, element: xmltree::Element },
}

/// The originating XML element an error is tagged with.
pub open spec fn error_context(e: Error) -> xmltree::Element {
    match e {
        Error::MissingRequiredAttribute { element, .. } => element,
        Error::UnsupportedMask { element, .. } => element,
        Error::UnsupportedAccessMode { element, .. } => element,
        Error::WrongElementKind { element, .. } => element,
    }
}

} // verus!

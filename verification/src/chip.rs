//! The normalized entities a bitfield element is turned into: the bit range
//! occupied by the field, its access mode, its value-restriction policy, and
//! the assembled `Field` itself.

use vstd::prelude::*;

verus! {

/// A closed interval `[low, high]` of bit indices: the minimal contiguous
/// span covering all set bits of the source mask.
#[derive(Debug, Clone, Copy, PartialEq, Eq, Structural)]
pub struct BitRange {
    pub low: u32,
    pub high: u32,
}

impl BitRange {
    /// A bit range is well-formed when it is a non-empty interval of
    /// bit indices that fit a 64-bit mask.
    pub open spec fn wf(self) -> bool {
        self.low <= self.high < 64
    }
}

/// Whether a field may only be read, or both read and written.
#[derive(Debug, Clone, Copy, PartialEq, Eq, Structural)]
pub enum AccessMode {
    ReadOnly,
    ReadWrite,
}

/// The value-restriction policy of a field.
///
/// `Unsafe` marks a field whose bit range spans bits that do not all belong
/// to the field, so a whole-range read-modify-write may touch unrelated
/// bits.  `Any` places no restriction; it is an extension point for a future
/// enumerated-value mechanism.
#[derive(Debug, Clone, Copy, PartialEq, Eq, Structural)]
pub enum ValueRestriction {
    Any,
    Unsafe,
}

/// Derives the value-restriction policy from mask contiguity:
/// a non-contiguous (unsafe) mask restricts the field to `Unsafe`,
/// a contiguous one leaves it unrestricted.
pub fn classify_restriction(unsafe_range: bool) -> (r: ValueRestriction)
    ensures
        r == (if unsafe_range {
            ValueRestriction::Unsafe
        } else {
            ValueRestriction::Any
        }),
{
    if unsafe_range {
        ValueRestriction::Unsafe
    } else {
        ValueRestriction::Any
    }
}

/// The output entity: one named group of bits within a hardware register,
/// immutable once built.
#[derive(Debug, Clone)]
pub struct Field {
    /// Field identifier; always non-empty.
    pub name: String,
    /// Human-readable description; `None` when the source caption is absent
    /// or empty.
    pub description: Option<String>,
    /// Bit span occupied by the field within its register.
    pub range: BitRange,
    pub access: AccessMode,
    pub restriction: ValueRestriction,
}

impl Field {
    pub open spec fn wf(self) -> bool {
        &&& self.range.wf()
        &&& (self.description matches Some(d) ==> d@.len() > 0)
    }
}

} // verus!

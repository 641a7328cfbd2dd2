//! The field builder: turns a `bitfield` XML element into the validated
//! `Field` entity, or a structured error.
//!
//! The element's tag is checked first; then `name` is extracted (required),
//! `caption` is normalized into an optional description, the `mask`
//! attribute is delegated to the mask parser, the restriction is derived
//! from mask contiguity, and the `rw` attribute is resolved into an access
//! mode.  The first failure aborts the whole construction; no partial field
//! is ever produced.

use vstd::prelude::*;

use crate::atdf::error::{error_context, Error};
use crate::chip::{classify_restriction, AccessMode, Field, ValueRestriction};
use crate::util;
use crate::util::{mask_dense, mask_span, spec_parse_literal};
use crate::xml::{attr_get, attrs_of, clone_element, element_name, tag_of};

verus! {

/// A non-fatal condition found while building a field, surfaced to the
/// caller's diagnostic channel.
#[derive(Debug, Clone, Copy, PartialEq, Eq, Structural)]
pub enum Warning {
    /// The `rw` attribute is present but empty; read-write was assumed.
    EmptyAccessMode,
}

/// Resolves the textual access specifier: `R` is read-only, `RW` is
/// read-write, an absent attribute defaults to read-write, and a present
/// but empty one resolves to read-write with a warning (the second
/// component).  Any other value is unsupported (`None`).
pub fn resolve_access_mode(rw: &Option<String>) -> (r: Option<(AccessMode, bool)>)
    ensures
        rw is None ==> r == Some((AccessMode::ReadWrite, false)),
        rw matches Some(a) ==> {
            &&& a@ == "R"@ ==> r == Some((AccessMode::ReadOnly, false))
            &&& a@ == "RW"@ ==> r == Some((AccessMode::ReadWrite, false))
            &&& a@ == ""@ ==> r == Some((AccessMode::ReadWrite, true))
            &&& a@ != "R"@ && a@ != "RW"@ && a@ != ""@ ==> r is None
        },
{
    proof {
        reveal_strlit("R");
        reveal_strlit("RW");
        reveal_strlit("");
        assert("R"@.len() == 1);
        assert("RW"@.len() == 2);
        assert(""@.len() == 0);
    }
    match rw {
        None => Some((AccessMode::ReadWrite, false)),
        Some(a) => {
            if *a == "R".to_owned() {
                Some((AccessMode::ReadOnly, false))
            } else if *a == "RW".to_owned() {
                Some((AccessMode::ReadWrite, false))
            } else if *a == "".to_owned() {
                Some((AccessMode::ReadWrite, true))
            } else {
                None
            }
        },
    }
}

/// Builds the `Field` entity described by a `bitfield` element, together
/// with any non-fatal warning, or fails with a structured error.
///
/// The contract pins the whole outcome down over the element's tag and
/// attribute map: which error is returned on which input, and every
/// component of the field on success.
pub fn parse(bitfield_el: &xmltree::Element) -> (r: Result<(Field, Option<Warning>), Error>)
    ensures
        ({
            let t = tag_of(*bitfield_el);
            let a = attrs_of(*bitfield_el);
            let wrong_tag = t != "bitfield"@;
            let has_name = a.contains_key("name"@);
            let has_mask = a.contains_key("mask"@);
            let mask_usable = has_mask && (spec_parse_literal(a["mask"@]) matches Some(v) && 0 < v
                <= u64::MAX);
            let has_rw = a.contains_key("rw"@);
            let rw_ok = !has_rw || a["rw"@] == "R"@ || a["rw"@] == "RW"@ || a["rw"@] == ""@;
            &&& (wrong_tag <==> (r matches Err(Error::WrongElementKind { .. })))
            &&& (r matches Err(Error::WrongElementKind { expected, found, element }) ==> expected@
                == "bitfield"@ && found@ == t)
            &&& ((!wrong_tag && !has_name) <==> (r matches Err(
                Error::MissingRequiredAttribute { attribute, .. },
            ) && attribute@ == "name"@))
            &&& ((!wrong_tag && has_name && !has_mask) <==> (r matches Err(
                Error::MissingRequiredAttribute { attribute, .. },
            ) && attribute@ == "mask"@))
            &&& ((!wrong_tag && has_name && has_mask && !mask_usable) <==> (r matches Err(
                Error::UnsupportedMask { .. },
            )))
            &&& (r matches Err(Error::UnsupportedMask { mask, .. }) ==> mask@ == a["mask"@])
            &&& ((!wrong_tag && has_name && mask_usable && !rw_ok) <==> (r matches Err(
                Error::UnsupportedAccessMode { .. },
            )))
            &&& (r matches Err(Error::UnsupportedAccessMode { value, .. }) ==> value@ == a["rw"@])
            &&& (r matches Err(e) ==> tag_of(error_context(e)) == t && attrs_of(error_context(e))
                == a)
            &&& ((!wrong_tag && has_name && mask_usable && rw_ok) <==> r is Ok)
            &&& (r matches Ok((f, w)) ==> {
                &&& f.name@ == a["name"@]
                &&& (a.contains_key("caption"@) && a["caption"@].len() > 0 ==> (f.description
                    matches Some(d) && d@ == a["caption"@]))
                &&& (!(a.contains_key("caption"@) && a["caption"@].len() > 0)
                    ==> f.description is None)
                &&& (spec_parse_literal(a["mask"@]) matches Some(v) && mask_span(v, f.range) && (
                f.restriction == ValueRestriction::Unsafe <==> !mask_dense(
                    v,
                    f.range.low as nat,
                    f.range.high as nat,
                )))
                &&& (f.restriction == ValueRestriction::Unsafe || f.restriction
                    == ValueRestriction::Any)
                &&& f.access == (if has_rw && a["rw"@] == "R"@ {
                    AccessMode::ReadOnly
                } else {
                    AccessMode::ReadWrite
                })
                &&& w == (if has_rw && a["rw"@] == ""@ {
                    Some(Warning::EmptyAccessMode)
                } else {
                    None::<Warning>
                })
                &&& f.wf()
            })
        }),
{
    proof {
        reveal_strlit("name");
        reveal_strlit("mask");
        assert("name"@[0] == 'n');
        assert("mask"@[0] == 'm');
    }
    let expected: String = "bitfield".to_owned();
    let tag = element_name(bitfield_el);
    if !(tag == expected) {
        return Err(
            Error::WrongElementKind {
                expected,
                found: tag,
                element: clone_element(bitfield_el),
            },
        );
    }

    let name = match attr_get(bitfield_el, "name") {
        Some(n) => n,
        None => {
            return Err(
                Error::MissingRequiredAttribute {
                    attribute: "name".to_owned(),
                    element: clone_element(bitfield_el),
                },
            );
        },
    };

    let description = match attr_get(bitfield_el, "caption") {
        Some(c) => {
            if c.as_str().is_empty() {
                None
            } else {
                Some(c)
            }
        },
        None => None,
    };

    let mask_text = match attr_get(bitfield_el, "mask") {
        Some(m) => m,
        None => {
            return Err(
                Error::MissingRequiredAttribute {
                    attribute: "mask".to_owned(),
                    element: clone_element(bitfield_el),
                },
            );
        },
    };
    let (range, unsafe_range) = match util::parse_mask(mask_text.as_str()) {
        Ok(Some(p)) => p,
        _ => {
            return Err(
                Error::UnsupportedMask {
                    mask: mask_text,
                    element: clone_element(bitfield_el),
                },
            );
        },
    };
    let restriction = classify_restriction(unsafe_range);

    let rw = attr_get(bitfield_el, "rw");
    let (access, empty_rw) = match resolve_access_mode(&rw) {
        Some(p) => p,
        None => {
            let value = match rw {
                Some(v) => v,
                // An absent attribute always resolves; this arm is never taken.
                None => String::new(),
            };
            return Err(
                Error::UnsupportedAccessMode {
                    value,
                    element: clone_element(bitfield_el),
                },
            );
        },
    };
    let warning = if empty_rw {
        Some(Warning::EmptyAccessMode)
    } else {
        None
    };

    Ok((Field { name, description, range, access, restriction }, warning))
}

} // verus!

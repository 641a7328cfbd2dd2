//! The trusted boundary to the XML tree: the element type is opaque here,
//! and the only things read from it are its tag name and its attributes.
//!
//! `tag_of` and `attrs_of` name what an element holds; the wrappers below
//! are the only code that touches an `xmltree::Element`, and everything the
//! library proves about elements rests on their contracts.

use vstd::prelude::*;

verus! {

#[verifier::external_type_specification]
#[verifier::external_body]
pub struct ExElement(xmltree::Element);

/// The tag name of an element, as a character sequence.
pub uninterp spec fn tag_of(e: xmltree::Element) -> Seq<char>;

/// What an element's attribute collection holds: the map from attribute
/// names to attribute values.
pub uninterp spec fn attrs_of(e: xmltree::Element) -> Map<Seq<char>, Seq<char>>;

/// Relies on the public `name` field of `xmltree::Element` (its tag name,
/// without namespace information) and on `String::clone`.
#[verifier::external_body]
pub(crate) fn element_name(e: &xmltree::Element) -> (r: String)
    ensures
        r@ == tag_of(*e),
{
    e.name.clone()
}

/// Relies on `HashMap::get` on the public `attributes` field of
/// `xmltree::Element` (a `HashMap<String, String>` under the crate's default
/// features): returns the value stored under `key`, if there is one.
#[verifier::external_body]
pub(crate) fn attr_get(e: &xmltree::Element, key: &str) -> (r: Option<String>)
    ensures
        (r is Some) <==> attrs_of(*e).contains_key(key@),
        r matches Some(v) ==> v@ == attrs_of(*e)[key@],
{
    e.attributes.get(key).cloned()
}

/// Relies on the derived `Clone` of `xmltree::Element`, which clones every
/// field: the copy carries the same tag name and the same attributes.
#[verifier::external_body]
pub(crate) fn clone_element(e: &xmltree::Element) -> (r: xmltree::Element)
    ensures
        tag_of(r) == tag_of(*e),
        attrs_of(r) == attrs_of(*e),
{
    e.clone()
}

} // verus!


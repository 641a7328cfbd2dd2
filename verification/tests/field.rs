use atdf_field::atdf::error::Error;
use atdf_field::atdf::field::{parse, resolve_access_mode, Warning};
use atdf_field::chip::{classify_restriction, AccessMode, BitRange, ValueRestriction};

fn bitfield(attrs: &[(&str, &str)]) -> xmltree::Element {
    let mut el = xmltree::Element::new("bitfield");
    for (k, v) in attrs {
        el.attributes.insert(k.to_string(), v.to_string());
    }
    el
}

#[test]
fn access_mode_mapping() {
    assert_eq!(
        resolve_access_mode(&Some("R".to_string())),
        Some((AccessMode::ReadOnly, false))
    );
    assert_eq!(
        resolve_access_mode(&Some("RW".to_string())),
        Some((AccessMode::ReadWrite, false))
    );
    assert_eq!(
        resolve_access_mode(&Some("".to_string())),
        Some((AccessMode::ReadWrite, true))
    );
    assert_eq!(resolve_access_mode(&None), Some((AccessMode::ReadWrite, false)));
    assert_eq!(resolve_access_mode(&Some("X".to_string())), None);
    assert_eq!(resolve_access_mode(&Some("rw".to_string())), None);
}

#[test]
fn restriction_mapping() {
    assert_eq!(classify_restriction(true), ValueRestriction::Unsafe);
    assert_eq!(classify_restriction(false), ValueRestriction::Any);
}

#[test]
fn parse_complete_field() {
    let el = bitfield(&[("name", "CTRL"), ("caption", ""), ("mask", "0xF0"), ("rw", "R")]);
    let (field, warning) = parse(&el).unwrap();
    assert_eq!(field.name, "CTRL");
    assert!(field.description.is_none());
    assert_eq!(field.range, BitRange { low: 4, high: 7 });
    assert_eq!(field.access, AccessMode::ReadOnly);
    assert_eq!(field.restriction, ValueRestriction::Any);
    assert!(warning.is_none());
}

#[test]
fn parse_missing_mask() {
    let el = bitfield(&[("name", "CTRL")]);
    let err = parse(&el).unwrap_err();
    assert!(matches!(
        err,
        Error::MissingRequiredAttribute { ref attribute, .. } if attribute == "mask"
    ));
}

#[test]
fn parse_missing_name() {
    let el = bitfield(&[("mask", "0xF0")]);
    let err = parse(&el).unwrap_err();
    assert!(matches!(
        err,
        Error::MissingRequiredAttribute { ref attribute, .. } if attribute == "name"
    ));
}

#[test]
fn parse_wrong_element() {
    let mut el = xmltree::Element::new("register");
    el.attributes.insert("name".to_string(), "CTRL".to_string());
    el.attributes.insert("mask".to_string(), "0xF0".to_string());
    let err = parse(&el).unwrap_err();
    assert!(matches!(
        err,
        Error::WrongElementKind { ref expected, ref found, .. }
            if expected == "bitfield" && found == "register"
    ));
}

#[test]
fn parse_zero_mask() {
    let el = bitfield(&[("name", "CTRL"), ("mask", "0x00")]);
    let err = parse(&el).unwrap_err();
    assert!(matches!(err, Error::UnsupportedMask { ref mask, .. } if mask == "0x00"));
}

#[test]
fn parse_malformed_mask() {
    let el = bitfield(&[("name", "CTRL"), ("mask", "zz")]);
    let err = parse(&el).unwrap_err();
    assert!(matches!(err, Error::UnsupportedMask { ref mask, .. } if mask == "zz"));
}

#[test]
fn parse_unsupported_access_mode() {
    let el = bitfield(&[("name", "CTRL"), ("mask", "0xF0"), ("rw", "X")]);
    let err = parse(&el).unwrap_err();
    assert!(matches!(err, Error::UnsupportedAccessMode { ref value, .. } if value == "X"));
}

#[test]
fn parse_empty_access_mode_warns() {
    let el = bitfield(&[("name", "CTRL"), ("mask", "0x01"), ("rw", "")]);
    let (field, warning) = parse(&el).unwrap();
    assert_eq!(field.access, AccessMode::ReadWrite);
    assert_eq!(warning, Some(Warning::EmptyAccessMode));
}

#[test]
fn parse_absent_access_mode_defaults() {
    let el = bitfield(&[("name", "CTRL"), ("mask", "0x01")]);
    let (field, warning) = parse(&el).unwrap();
    assert_eq!(field.access, AccessMode::ReadWrite);
    assert!(warning.is_none());
}

#[test]
fn parse_keeps_nonempty_caption() {
    let el = bitfield(&[("name", "CTRL"), ("caption", "Control bits"), ("mask", "0x0F")]);
    let (field, _) = parse(&el).unwrap();
    assert_eq!(field.description.as_deref(), Some("Control bits"));
    assert_eq!(field.range, BitRange { low: 0, high: 3 });
}

#[test]
fn parse_noncontiguous_mask_is_unsafe() {
    let el = bitfield(&[("name", "STAT"), ("mask", "0x90")]);
    let (field, _) = parse(&el).unwrap();
    assert_eq!(field.range, BitRange { low: 4, high: 7 });
    assert_eq!(field.restriction, ValueRestriction::Unsafe);
}

#[test]
fn parse_single_bit_field() {
    let el = bitfield(&[("name", "EN"), ("mask", "0x01"), ("rw", "RW")]);
    let (field, warning) = parse(&el).unwrap();
    assert_eq!(field.name, "EN");
    assert_eq!(field.range, BitRange { low: 0, high: 0 });
    assert_eq!(field.access, AccessMode::ReadWrite);
    assert_eq!(field.restriction, ValueRestriction::Any);
    assert!(warning.is_none());
}

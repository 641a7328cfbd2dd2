use atdf_field::chip::BitRange;
use atdf_field::util::{mask_to_range, parse_literal, parse_mask, MaskError};

#[test]
fn literal_hex() {
    assert_eq!(parse_literal("0xF0"), Ok(240));
    assert_eq!(parse_literal("0XAB"), Ok(171));
    assert_eq!(parse_literal("0x0"), Ok(0));
}

#[test]
fn literal_decimal() {
    assert_eq!(parse_literal("255"), Ok(255));
    assert_eq!(parse_literal("0"), Ok(0));
    assert_eq!(parse_literal("16"), Ok(16));
}

#[test]
fn literal_binary_and_octal() {
    assert_eq!(parse_literal("0b101"), Ok(5));
    assert_eq!(parse_literal("0B11"), Ok(3));
    assert_eq!(parse_literal("0o17"), Ok(15));
    assert_eq!(parse_literal("0O7"), Ok(7));
}

#[test]
fn literal_not_numeric() {
    assert_eq!(parse_literal(""), Err(MaskError::NotNumeric));
    assert_eq!(parse_literal("xyz"), Err(MaskError::NotNumeric));
    assert_eq!(parse_literal("0x"), Err(MaskError::NotNumeric));
    assert_eq!(parse_literal("0xFG"), Err(MaskError::NotNumeric));
    assert_eq!(parse_literal("0b2"), Err(MaskError::NotNumeric));
    assert_eq!(parse_literal("0o8"), Err(MaskError::NotNumeric));
    assert_eq!(parse_literal("12 "), Err(MaskError::NotNumeric));
    assert_eq!(parse_literal("-1"), Err(MaskError::NotNumeric));
}

#[test]
fn literal_too_large() {
    assert_eq!(parse_literal("0xFFFFFFFFFFFFFFFF"), Ok(u64::MAX));
    assert_eq!(parse_literal("0x1FFFFFFFFFFFFFFFF"), Err(MaskError::TooLarge));
    assert_eq!(parse_literal("18446744073709551616"), Err(MaskError::TooLarge));
}

#[test]
fn range_contiguous() {
    // 0xF0: bits 4..=7 set, a dense run.
    assert_eq!(
        parse_mask("0xF0"),
        Ok(Some((BitRange { low: 4, high: 7 }, false)))
    );
}

#[test]
fn range_with_hole() {
    // 0x90: bits 4 and 7 set, 5 and 6 clear: same span, but unsafe.
    assert_eq!(
        parse_mask("0x90"),
        Ok(Some((BitRange { low: 4, high: 7 }, true)))
    );
}

#[test]
fn range_single_bit() {
    assert_eq!(
        parse_mask("0x01"),
        Ok(Some((BitRange { low: 0, high: 0 }, false)))
    );
    assert_eq!(
        parse_mask("0x80"),
        Ok(Some((BitRange { low: 7, high: 7 }, false)))
    );
}

#[test]
fn range_zero_mask() {
    assert_eq!(parse_mask("0x00"), Ok(None));
    assert_eq!(parse_mask("0"), Ok(None));
}

#[test]
fn range_other_bases() {
    assert_eq!(
        parse_mask("16"),
        Ok(Some((BitRange { low: 4, high: 4 }, false)))
    );
    assert_eq!(
        parse_mask("0b1010"),
        Ok(Some((BitRange { low: 1, high: 3 }, true)))
    );
    assert_eq!(
        parse_mask("0o17"),
        Ok(Some((BitRange { low: 0, high: 3 }, false)))
    );
}

#[test]
fn range_errors() {
    assert_eq!(parse_mask("zz"), Err(MaskError::NotNumeric));
    assert_eq!(parse_mask("0x1FFFFFFFFFFFFFFFF"), Err(MaskError::TooLarge));
}

#[test]
fn range_full_width() {
    assert_eq!(
        parse_mask("0xFFFFFFFFFFFFFFFF"),
        Ok(Some((BitRange { low: 0, high: 63 }, false)))
    );
    assert_eq!(
        mask_to_range(0x8000000000000001),
        Some((BitRange { low: 0, high: 63 }, true))
    );
}

#[test]
fn range_from_value() {
    assert_eq!(mask_to_range(0), None);
    assert_eq!(mask_to_range(0x90), Some((BitRange { low: 4, high: 7 }, true)));
    assert_eq!(mask_to_range(1), Some((BitRange { low: 0, high: 0 }, false)));
}

//! The mask parser: converts a textual bitmask (a hexadecimal, binary, octal
//! or decimal literal) into the closed bit range spanned by its set bits,
//! together with a contiguity classification.
//!
//! A mask of zero yields no range: a field without bits is not a field.
//! A mask whose set bits do not form an unbroken run between its lowest and
//! highest set bit is classified unsafe: its range contains bits the field
//! does not own.

use vstd::prelude::*;
use vstd::string::StrSliceExecFns;
use vstd::arithmetic::power2::{pow2, lemma_pow2_unfold, lemma2_to64};

use crate::chip::BitRange;

verus! {

/// Why a mask text could not be converted to a bit range.
#[derive(Debug, Clone, Copy, PartialEq, Eq, Structural)]
pub enum MaskError {
    /// The text is not a numeric literal (or has no digits at all).
    NotNumeric,
    /// The text is a numeric literal whose value exceeds 64 bits.
    TooLarge,
}

/// `m` shifted right by `i` bits, on mathematical integers.
pub open spec fn shr_n(m: nat, i: nat) -> nat
    decreases i,
{
    if i == 0 {
        m
    } else {
        shr_n(m, (i - 1) as nat) / 2
    }
}

/// Whether bit `i` of `m` is set.
pub open spec fn bit_of(m: nat, i: nat) -> bool {
    shr_n(m, i) % 2 == 1
}

/// Every bit index in the closed interval `[lo, hi]` is set in `m`.
pub open spec fn mask_dense(m: nat, lo: nat, hi: nat) -> bool {
    forall|j: nat| lo <= j <= hi ==> bit_of(m, j)
}

/// `range` is exactly the span of the set bits of `m`: its bounds are the
/// least and greatest set-bit indices, and every set bit lies inside it.
pub open spec fn mask_span(m: nat, range: BitRange) -> bool {
    &&& range.wf()
    &&& bit_of(m, range.low as nat)
    &&& bit_of(m, range.high as nat)
    &&& forall|j: nat| bit_of(m, j) ==> range.low <= j <= range.high
}

/// The full statement of a successful mask conversion: `range` spans the set
/// bits of `m`, and `unsafe_range` holds exactly when that span is not
/// densely covered by them.
pub open spec fn mask_parsed(m: nat, range: BitRange, unsafe_range: bool) -> bool {
    &&& mask_span(m, range)
    &&& (unsafe_range <==> !mask_dense(m, range.low as nat, range.high as nat))
}

/// The numeric value of `c` read as a digit in base `radix`, if it is one.
/// Letter digits are accepted in both cases.
pub open spec fn digit_val(c: char, radix: nat) -> Option<nat> {
    let u = c as u32;
    let v: int = if '0' as u32 <= u && u <= '9' as u32 {
        u - '0' as u32
    } else if 'a' as u32 <= u && u <= 'f' as u32 {
        u - 'a' as u32 + 10
    } else if 'A' as u32 <= u && u <= 'F' as u32 {
        u - 'A' as u32 + 10
    } else {
        -1
    };
    if 0 <= v < radix {
        Some(v as nat)
    } else {
        None
    }
}

/// The value of a run of digits in base `radix`, most significant first.
/// `None` when the run is empty or any character is not a digit of the base.
pub open spec fn digits_val(s: Seq<char>, radix: nat) -> Option<nat>
    decreases s.len(),
{
    if s.len() == 0 {
        None
    } else if s.len() == 1 {
        digit_val(s[0], radix)
    } else {
        match (digits_val(s.drop_last(), radix), digit_val(s.last(), radix)) {
            (Some(h), Some(d)) => Some(h * radix + d),
            _ => None,
        }
    }
}

/// The base selected by the literal's prefix: `0x` or `0X` is hexadecimal,
/// `0b` or `0B` binary, `0o` or `0O` octal, anything else decimal.
pub open spec fn literal_radix(s: Seq<char>) -> nat {
    if s.len() >= 2 && s[0] == '0' && (s[1] == 'x' || s[1] == 'X') {
        16
    } else if s.len() >= 2 && s[0] == '0' && (s[1] == 'b' || s[1] == 'B') {
        2
    } else if s.len() >= 2 && s[0] == '0' && (s[1] == 'o' || s[1] == 'O') {
        8
    } else {
        10
    }
}

/// The digit run of the literal: everything after the base prefix, if any.
pub open spec fn literal_digits(s: Seq<char>) -> Seq<char> {
    if literal_radix(s) == 10 {
        s
    } else {
        s.skip(2)
    }
}

/// The value of a numeric literal: its digit run read in the base selected
/// by its prefix. `None` when the text is not a well-formed literal.
pub open spec fn spec_parse_literal(s: Seq<char>) -> Option<nat> {
    digits_val(literal_digits(s), literal_radix(s))
}

proof fn lemma_digits_val_invalid(s: Seq<char>, radix: nat, j: int)
    requires
        0 <= j < s.len(),
        digit_val(s[j], radix) is None,
    ensures
        digits_val(s, radix) is None,
    decreases s.len(),
{
    if s.len() > 1 && j < s.len() - 1 {
        assert(s.drop_last()[j] == s[j]);
        lemma_digits_val_invalid(s.drop_last(), radix, j);
    }
}

proof fn lemma_shr_lower_bound(m: nat, i: nat, k: nat)
    requires
        shr_n(m, i) >= k,
    ensures
        m >= k * pow2(i),
    decreases i,
{
    if i == 0 {
        lemma2_to64();
        assert(pow2(0) == 1);
    } else {
        let im1 = (i - 1) as nat;
        assert(shr_n(m, i) == shr_n(m, im1) / 2);
        assert(shr_n(m, im1) >= 2 * k);
        lemma_shr_lower_bound(m, im1, 2 * k);
        lemma_pow2_unfold(i);
        assert((2 * k) * pow2(im1) == k * (2 * pow2(im1))) by (nonlinear_arith);
    }
}

proof fn lemma_shr_compose(m: nat, a: nat, b: nat)
    ensures
        shr_n(m, a + b) == shr_n(shr_n(m, a), b),
    decreases b,
{
    if b > 0 {
        let bm1 = (b - 1) as nat;
        lemma_shr_compose(m, a, bm1);
        assert(shr_n(m, a + b) == shr_n(m, a + bm1) / 2);
        assert(shr_n(shr_n(m, a), b) == shr_n(shr_n(m, a), bm1) / 2);
    }
}

proof fn lemma_shr_of_one(k: nat)
    requires
        k >= 1,
    ensures
        shr_n(1, k) == 0,
    decreases k,
{
    if k == 1 {
        assert(shr_n(1, 1) == shr_n(1, 0) / 2);
    } else {
        lemma_shr_of_one((k - 1) as nat);
        assert(shr_n(1, k) == shr_n(1, (k - 1) as nat) / 2);
    }
}

/// Converts an already-numeric mask value into its bit range and contiguity
/// flag.
///
/// Returns `None` exactly for the zero mask; for any other value the range
/// bounds are the least and greatest set-bit indices, and the flag is set
/// exactly when some bit strictly inside the range is clear.
#[verifier::loop_isolation(false)]
pub fn mask_to_range(m: u64) -> (r: Option<(BitRange, bool)>)
    ensures
        (r is Some) <==> m != 0,
        r matches Some(p) ==> mask_parsed(m as nat, p.0, p.1),
{
    if m == 0 {
        return None;
    }
    let ghost mn = m as nat;

    // Find the lowest set bit by shifting until an odd value appears.
    let mut v: u64 = m;
    let mut low: u32 = 0;
    while v % 2 == 0
        invariant
            m != 0,
            low < 64,
            v >= 1,
            v as nat == shr_n(m as nat, low as nat),
            forall|j: nat| j < low ==> !bit_of(m as nat, j),
        decreases v,
    {
        proof {
            assert(shr_n(mn, low as nat + 1) == shr_n(mn, low as nat) / 2);
            assert(!bit_of(mn, low as nat));
            if low >= 63 {
                lemma_shr_lower_bound(mn, low as nat, 2);
                lemma_pow2_unfold(64);
                lemma2_to64();
                assert(false);
            }
        }
        v = v / 2;
        low = low + 1;
    }
    proof {
        assert(bit_of(mn, low as nat));
    }

    // Find the highest set bit by shifting the rest down to one.
    let mut w: u64 = v;
    let mut high: u32 = low;
    while w >= 2
        invariant
            low <= high < 64,
            w >= 1,
            w as nat == shr_n(m as nat, high as nat),
        decreases w,
    {
        proof {
            assert(shr_n(mn, high as nat + 1) == shr_n(mn, high as nat) / 2);
            if high >= 63 {
                lemma_shr_lower_bound(mn, high as nat, 2);
                lemma_pow2_unfold(64);
                lemma2_to64();
                assert(false);
            }
        }
        w = w / 2;
        high = high + 1;
    }
    proof {
        // w dropped below two but never below one, so it is exactly one:
        // bit `high` is set and every bit above it is clear.
        assert(w == 1);
        assert(bit_of(mn, high as nat));
        assert forall|j: nat| j > high implies !bit_of(mn, j) by {
            lemma_shr_compose(mn, high as nat, (j - high) as nat);
            lemma_shr_of_one((j - high) as nat);
            assert(shr_n(mn, j) == 0);
        }
        assert(low <= high);
    }

    // Walk the range and check that every bit inside it is set.
    let mut d: u64 = v;
    let mut i: u32 = low;
    let mut dense: bool = true;
    while i < high
        invariant
            low <= i <= high < 64,
            d as nat == shr_n(m as nat, i as nat),
            bit_of(m as nat, low as nat),
            dense <==> mask_dense(m as nat, low as nat, i as nat),
        decreases high - i,
    {
        proof {
            assert(shr_n(mn, i as nat + 1) == shr_n(mn, i as nat) / 2);
        }
        d = d / 2;
        i = i + 1;
        if d % 2 == 0 {
            dense = false;
            proof {
                assert(!bit_of(mn, i as nat));
            }
        }
        proof {
            assert(dense <==> mask_dense(mn, low as nat, i as nat)) by {
                if dense {
                    assert forall|j: nat| low <= j <= i implies bit_of(mn, j) by {
                        if j < i {
                            assert(mask_dense(mn, low as nat, (i - 1) as nat));
                        } else {
                            assert(bit_of(mn, i as nat));
                        }
                    }
                } else {
                    if mask_dense(mn, low as nat, i as nat) {
                        assert(bit_of(mn, i as nat));
                        assert(mask_dense(mn, low as nat, (i - 1) as nat));
                    }
                }
            }
        }
    }

    let range = BitRange { low, high };
    Some((range, !dense))
}

fn digit_val_exec(c: char, radix: u32) -> (r: Option<u32>)
    ensures
        (r is None) <==> digit_val(c, radix as nat) is None,
        r matches Some(d) ==> digit_val(c, radix as nat) == Some(d as nat),
{
    let u = c as u32;
    let v: u32 = if u >= '0' as u32 && u <= '9' as u32 {
        u - '0' as u32
    } else if u >= 'a' as u32 && u <= 'f' as u32 {
        u - 'a' as u32 + 10
    } else if u >= 'A' as u32 && u <= 'F' as u32 {
        u - 'A' as u32 + 10
    } else {
        return None;
    };
    if v < radix {
        Some(v)
    } else {
        None
    }
}

/// Reads a numeric literal (`0x`/`0b`/`0o` prefixed or plain decimal) into a
/// 64-bit value.  Fails with `NotNumeric` exactly when the text is not a
/// well-formed literal, and with `TooLarge` exactly when it is one but its
/// value does not fit in 64 bits.
#[verifier::loop_isolation(false)]
pub fn parse_literal(s: &str) -> (r: Result<u64, MaskError>)
    ensures
        (spec_parse_literal(s@) is None) <==> r == Err::<u64, MaskError>(MaskError::NotNumeric),
        (spec_parse_literal(s@) matches Some(v) && v > u64::MAX) <==> r == Err::<u64, MaskError>(
            MaskError::TooLarge,
        ),
        (spec_parse_literal(s@) matches Some(v) && v <= u64::MAX) <==> r is Ok,
        r matches Ok(x) ==> spec_parse_literal(s@) == Some(x as nat),
{
    let ghost sv = s@;
    let n = s.unicode_len();

    let mut radix: u32 = 10;
    let mut start: usize = 0;
    if n >= 2 {
        let c0 = s.get_char(0);
        if c0 == '0' {
            let c1 = s.get_char(1);
            if c1 == 'x' || c1 == 'X' {
                radix = 16;
                start = 2;
            } else if c1 == 'b' || c1 == 'B' {
                radix = 2;
                start = 2;
            } else if c1 == 'o' || c1 == 'O' {
                radix = 8;
                start = 2;
            }
        }
    }
    let ghost rad: nat = radix as nat;
    let ghost digits: Seq<char> = literal_digits(sv);
    proof {
        assert(rad == literal_radix(sv));
        assert(sv.skip(0) =~= sv);
        assert(digits =~= sv.skip(start as int));
    }

    let mut i: usize = start;
    let mut acc: u64 = 0;
    let mut over: bool = false;
    while i < n
        invariant
            start <= i <= n,
            !over && i == start ==> acc == 0,
            !over && i > start ==> digits_val(digits.take(i - start), rad) == Some(acc as nat),
            over ==> (digits_val(digits.take(i - start), rad) matches Some(ov) && ov > u64::MAX),
        decreases n - i,
    {
        let ghost p = digits.take(i - start);
        let c = s.get_char(i);
        proof {
            assert(c == digits[i - start]);
        }
        let d: u32 = match digit_val_exec(c, radix) {
            Some(d) => d,
            None => {
                proof {
                    lemma_digits_val_invalid(digits, rad, i - start);
                }
                return Err(MaskError::NotNumeric);
            },
        };
        let ghost p1 = digits.take(i + 1 - start);
        proof {
            assert(p1 =~= p.push(c));
            assert(p1.drop_last() =~= p);
            assert(p1.last() == c);
            if p1.len() > 1 {
                assert(digits_val(p1, rad) == match (digits_val(p, rad), digit_val(c, rad)) {
                    (Some(h), Some(dd)) => Some(h * rad + dd),
                    _ => None::<nat>,
                });
            }
        }
        if !over {
            match acc.checked_mul(radix as u64) {
                Some(t1) => {
                    match t1.checked_add(d as u64) {
                        Some(t2) => {
                            acc = t2;
                        },
                        None => {
                            over = true;
                        },
                    }
                },
                None => {
                    over = true;
                    proof {
                        assert(acc * rad + d as nat > u64::MAX);
                    }
                },
            }
        } else {
            proof {
                let ov = digits_val(p, rad)->0;
                assert(ov * rad >= 2 * ov) by (nonlinear_arith)
                    requires
                        rad >= 2,
                        ov >= 0,
                ;
                assert(ov * rad + digit_val(c, rad)->0 > u64::MAX);
            }
        }
        i = i + 1;
    }

    proof {
        if start < n {
            assert(digits.take(n - start) =~= digits);
        }
    }
    if start == n {
        return Err(MaskError::NotNumeric);
    }
    if over {
        return Err(MaskError::TooLarge);
    }
    Ok(acc)
}

/// The mask parser: reads a textual bitmask and converts it to the bit range
/// spanned by its set bits, with the contiguity flag.
///
/// A text that is not a numeric literal, or one whose value exceeds 64 bits,
/// is an error; the zero mask yields `Ok(None)`; any other value yields the
/// range of its set bits, flagged unsafe exactly when a bit strictly inside
/// the range is clear.
pub fn parse_mask(s: &str) -> (r: Result<Option<(BitRange, bool)>, MaskError>)
    ensures
        (spec_parse_literal(s@) is None) <==> r == Err::<Option<(BitRange, bool)>, MaskError>(
            MaskError::NotNumeric,
        ),
        (spec_parse_literal(s@) matches Some(v) && v > u64::MAX) <==> r == Err::<
            Option<(BitRange, bool)>,
            MaskError,
        >(MaskError::TooLarge),
        (spec_parse_literal(s@) == Some(0nat)) <==> (r matches Ok(o) && o is None),
        (spec_parse_literal(s@) matches Some(v) && 0 < v <= u64::MAX) <==> (r matches Ok(o)
            && o is Some),
        r matches Ok(Some(p)) ==> (spec_parse_literal(s@) matches Some(v)
            && mask_parsed(v, p.0, p.1)),
{
    let m = match parse_literal(s) {
        Ok(m) => m,
        Err(e) => {
            return Err(e);
        },
    };
    match mask_to_range(m) {
        Some(p) => Ok(Some(p)),
        None => Ok(None),
    }
}

} // verus!

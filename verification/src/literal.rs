//! Turning the literal value string of an assignment form into a typed
//! value: decimal integers for the scalar integer shapes, the bytes
//! themselves for strings. Records and arrays cannot be written from a
//! literal.

use vstd::prelude::*;

use crate::codec::TypedValue;
use crate::codec::ValueModel;
use crate::error::CtlError;
use crate::error::ErrorModel;
use crate::error::res_view;
use crate::shape::ValueShape;

verus! {

/// The byte `-`.
pub const MINUS: u8 = 45;

/// The byte `0`; decimal digits run from here to `DIGIT_NINE`.
pub const DIGIT_ZERO: u8 = 48;

/// The byte `9`.
pub const DIGIT_NINE: u8 = 57;

/// A non-empty run of decimal digits.
pub open spec fn spec_is_digits(s: Seq<u8>) -> bool {
    s.len() > 0 && forall|i: int| 0 <= i < s.len() ==> DIGIT_ZERO <= #[trigger] s[i] <= DIGIT_NINE
}

/// The value of a run of decimal digits.
pub open spec fn spec_dec_val(s: Seq<u8>) -> int
    decreases s.len(),
{
    if s.len() == 0 {
        0
    } else {
        spec_dec_val(s.drop_last()) * 10 + (s.last() - DIGIT_ZERO)
    }
}

/// The integer written in `s`: an optional minus sign followed by digits.
pub open spec fn spec_int_literal(s: Seq<u8>) -> Option<int> {
    if s.len() > 0 && s[0] == MINUS {
        if spec_is_digits(s.drop_first()) {
            Some(-spec_dec_val(s.drop_first()))
        } else {
            None
        }
    } else if spec_is_digits(s) {
        Some(spec_dec_val(s))
    } else {
        None
    }
}

/// What [`from_literal`] returns: for integer shapes, the written value
/// exactly when `s` is a well-formed decimal integer in the shape's range,
/// `MalformedPath` otherwise; for strings, the bytes as they stand; for
/// every other shape, `ShapeMismatch` (no literal form exists for it).
pub open spec fn spec_from_literal(shape: ValueShape, s: Seq<u8>) -> Result<
    ValueModel,
    ErrorModel,
> {
    match shape {
        ValueShape::Int32 => match spec_int_literal(s) {
            Some(v) => if -0x8000_0000 <= v <= 0x7fff_ffff {
                Ok(ValueModel::Int32(v as i32))
            } else {
                Err(ErrorModel::MalformedPath)
            },
            None => Err(ErrorModel::MalformedPath),
        },
        ValueShape::DeviceId => match spec_int_literal(s) {
            Some(v) => if -0x8000_0000 <= v <= 0x7fff_ffff {
                Ok(ValueModel::DeviceId(v as i32))
            } else {
                Err(ErrorModel::MalformedPath)
            },
            None => Err(ErrorModel::MalformedPath),
        },
        ValueShape::Int64 => match spec_int_literal(s) {
            Some(v) => if -0x8000_0000_0000_0000 <= v <= 0x7fff_ffff_ffff_ffff {
                Ok(ValueModel::Int64(v as i64))
            } else {
                Err(ErrorModel::MalformedPath)
            },
            None => Err(ErrorModel::MalformedPath),
        },
        ValueShape::Long => match spec_int_literal(s) {
            Some(v) => if -0x8000_0000_0000_0000 <= v <= 0x7fff_ffff_ffff_ffff {
                Ok(ValueModel::Long(v as i64))
            } else {
                Err(ErrorModel::MalformedPath)
            },
            None => Err(ErrorModel::MalformedPath),
        },
        ValueShape::CString => Ok(ValueModel::Text(s)),
        _ => Err(ErrorModel::ShapeMismatch),
    }
}

/// The value of a digit run only grows as digits are appended.
proof fn lemma_dec_val_nonneg(s: Seq<u8>)
    requires
        forall|i: int| 0 <= i < s.len() ==> DIGIT_ZERO <= #[trigger] s[i] <= DIGIT_NINE,
    ensures
        spec_dec_val(s) >= 0,
    decreases s.len(),
{
    if s.len() > 0 {
        lemma_dec_val_nonneg(s.drop_last());
    }
}

proof fn lemma_dec_val_prefix_le(s: Seq<u8>, i: int)
    requires
        forall|j: int| 0 <= j < s.len() ==> DIGIT_ZERO <= #[trigger] s[j] <= DIGIT_NINE,
        0 <= i <= s.len(),
    ensures
        spec_dec_val(s.take(i)) <= spec_dec_val(s),
    decreases s.len() - i,
{
    if i < s.len() {
        lemma_dec_val_nonneg(s.take(i));
        assert(s.take(i + 1).drop_last() =~= s.take(i));
        assert(s.take(i + 1).last() == s[i]);
        assert(spec_dec_val(s.take(i + 1)) == spec_dec_val(s.take(i)) * 10 + (s[i] - DIGIT_ZERO));
        lemma_dec_val_prefix_le(s, i + 1);
    } else {
        assert(s.take(i) =~= s);
    }
}

/// Reads the decimal value of `digits`, or reports that it exceeds `cap`.
/// `cap` bounds the magnitude any caller accepts, so parsing may stop as
/// soon as a prefix already exceeds it.
#[verifier::loop_isolation(false)]
fn parse_magnitude(digits: &[u8], cap: u64) -> (r: Option<u64>)
    requires
        spec_is_digits(digits@),
    ensures
        match r {
            Some(m) => m == spec_dec_val(digits@) && m <= cap,
            None => spec_dec_val(digits@) > cap,
        },
{
    let mut mag: u128 = 0;
    let mut i: usize = 0;
    proof {
        assert(digits@.take(0) =~= Seq::<u8>::empty());
    }
    while i < digits.len()
        invariant
            0 <= i <= digits@.len(),
            mag == spec_dec_val(digits@.take(i as int)),
            mag <= cap,
        decreases digits@.len() - i,
    {
        proof {
            assert(digits@.take(i + 1 as int).drop_last() =~= digits@.take(i as int));
            assert(digits@.take(i + 1 as int).last() == digits@[i as int]);
        }
        let d = digits[i];
        mag = mag * 10 + ((d - DIGIT_ZERO) as u128);
        i = i + 1;
        if mag > cap as u128 {
            proof {
                lemma_dec_val_prefix_le(digits@, i as int);
            }
            return None;
        }
    }
    proof {
        assert(digits@.take(digits@.len() as int) =~= digits@);
    }
    Some(mag as u64)
}

/// Whether `s` is a non-empty run of decimal digits.
fn is_digits(s: &[u8]) -> (r: bool)
    ensures
        r == spec_is_digits(s@),
{
    if s.len() == 0 {
        return false;
    }
    let mut i: usize = 0;
    while i < s.len()
        invariant
            0 <= i <= s@.len(),
            forall|j: int| 0 <= j < i ==> DIGIT_ZERO <= #[trigger] s@[j] <= DIGIT_NINE,
        decreases s@.len() - i,
    {
        let c = s[i];
        if c < DIGIT_ZERO || c > DIGIT_NINE {
            return false;
        }
        i = i + 1;
    }
    true
}

/// Parses a signed decimal integer bounded by `pos_max` upward and
/// `neg_mag_max` in magnitude downward.
#[verifier::loop_isolation(false)]
fn parse_signed(s: &[u8], pos_max: u64, neg_mag_max: u64) -> (r: Option<(bool, u64)>)
    requires
        neg_mag_max >= pos_max,
    ensures
        match r {
            Some((neg, m)) => {
                &&& spec_int_literal(s@) == Some(if neg { -(m as int) } else { m as int })
                &&& (if neg {
                    0 < m <= neg_mag_max
                } else {
                    m <= pos_max
                })
            },
            None => match spec_int_literal(s@) {
                Some(v) => v > pos_max || v < -(neg_mag_max as int),
                None => true,
            },
        },
{
    if s.len() > 0 && s[0] == MINUS {
        let digits = vstd::slice::slice_subrange(s, 1, s.len());
        proof {
            assert(digits@ =~= s@.drop_first());
        }
        if !is_digits(digits) {
            return None;
        }
        match parse_magnitude(digits, neg_mag_max) {
            Some(m) => {
                if m == 0 {
                    // `-0` is zero; return it unsigned so one pair (neg, m)
                    // stands for each value.
                    Some((false, 0))
                } else {
                    Some((true, m))
                }
            },
            None => None,
        }
    } else {
        if !is_digits(s) {
            return None;
        }
        match parse_magnitude(s, pos_max) {
            Some(m) => Some((false, m)),
            None => None,
        }
    }
}

/// Converts the literal value string of an assignment form into a typed
/// value of the target's shape, per [`spec_from_literal`].
pub fn from_literal(shape: ValueShape, s: &[u8]) -> (r: Result<TypedValue, CtlError>)
    ensures
        res_view(r) == spec_from_literal(shape, s@),
{
    match shape {
        ValueShape::Int32 => match parse_signed(s, 0x7fff_ffffu64, 0x8000_0000u64) {
            Some((neg, m)) => {
                if neg {
                    Ok(TypedValue::Int32(neg_mag_to_i32(m)))
                } else {
                    Ok(TypedValue::Int32(m as i32))
                }
            },
            None => Err(CtlError::MalformedPath),
        },
        ValueShape::DeviceId => match parse_signed(s, 0x7fff_ffffu64, 0x8000_0000u64) {
            Some((neg, m)) => {
                if neg {
                    Ok(TypedValue::DeviceId(neg_mag_to_i32(m)))
                } else {
                    Ok(TypedValue::DeviceId(m as i32))
                }
            },
            None => Err(CtlError::MalformedPath),
        },
        ValueShape::Int64 => match parse_signed(
            s,
            0x7fff_ffff_ffff_ffffu64,
            0x8000_0000_0000_0000u64,
        ) {
            Some((neg, m)) => {
                if neg {
                    Ok(TypedValue::Int64(neg_mag_to_i64(m)))
                } else {
                    Ok(TypedValue::Int64(m as i64))
                }
            },
            None => Err(CtlError::MalformedPath),
        },
        ValueShape::Long => match parse_signed(
            s,
            0x7fff_ffff_ffff_ffffu64,
            0x8000_0000_0000_0000u64,
        ) {
            Some((neg, m)) => {
                if neg {
                    Ok(TypedValue::Long(neg_mag_to_i64(m)))
                } else {
                    Ok(TypedValue::Long(m as i64))
                }
            },
            None => Err(CtlError::MalformedPath),
        },
        ValueShape::CString => Ok(TypedValue::Text(vstd::slice::slice_to_vec(s))),
        _ => Err(CtlError::ShapeMismatch),
    }
}

/// The `i32` whose value is `-(m as int)`.
fn neg_mag_to_i32(m: u64) -> (r: i32)
    requires
        0 < m <= 0x8000_0000,
    ensures
        r as int == -(m as int),
{
    let k: u64 = m - 1;
    let p: i32 = k as i32;
    -p - 1
}

/// The `i64` whose value is `-(m as int)`.
fn neg_mag_to_i64(m: u64) -> (r: i64)
    requires
        0 < m <= 0x8000_0000_0000_0000,
    ensures
        r as int == -(m as int),
{
    let k: u64 = m - 1;
    let p: i64 = k as i64;
    -p - 1
}

} // verus!

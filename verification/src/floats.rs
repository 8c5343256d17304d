//! Floating-point values are carried through the language as IEEE 754
//! double-precision bit patterns (`u64`). The arithmetic, the reading of
//! decimal literals and the textual form are pure functions of those bit
//! patterns; they are named by uninterpreted spec functions and computed by
//! trusted wrappers around the `rustc_apfloat` software float library, whose
//! operations are deterministic and correctly rounded (round to nearest,
//! ties to even — the IEEE 754 default used by hardware doubles).

use rustc_apfloat::ieee::Double;
use rustc_apfloat::Float;
use vstd::prelude::*;

verus! {

/// The double-precision value denoted by a decimal literal, as bits;
/// 0 for text that is not a valid literal.
pub uninterp spec fn float_of_dec(s: Seq<char>) -> u64;

/// The double-precision value nearest to an integer, as bits.
pub uninterp spec fn float_of_int(i: int) -> u64;

/// The bits of the IEEE 754 double-precision sum of two values given as bits.
pub uninterp spec fn float_add_bits(a: u64, b: u64) -> u64;

/// The bits of the IEEE 754 double-precision difference of two values given as bits.
pub uninterp spec fn float_sub_bits(a: u64, b: u64) -> u64;

/// The bits of the IEEE 754 double-precision product of two values given as bits.
pub uninterp spec fn float_mul_bits(a: u64, b: u64) -> u64;

/// The bits of the IEEE 754 double-precision quotient of two values given as bits.
pub uninterp spec fn float_div_bits(a: u64, b: u64) -> u64;

/// The decimal text of a double-precision value given as bits.
pub uninterp spec fn float_text(bits: u64) -> Seq<char>;

/// Relies on `rustc_apfloat::ieee::Double::from_str`, which reads a decimal
/// literal with correct rounding (ties to even) and whose result depends on
/// the text alone; text it rejects is mapped to 0.
#[verifier::external_body]
pub(crate) fn float_from_dec(s: &str) -> (r: u64)
    ensures
        r == float_of_dec(s@),
{
    match s.parse::<Double>() {
        Ok(d) => d.to_bits() as u64,
        Err(_) => 0,
    }
}

/// Relies on `rustc_apfloat::Float::from_i128`, which converts an integer to
/// the nearest double (ties to even); the result depends on the integer alone.
#[verifier::external_body]
pub(crate) fn float_from_i128(i: i128) -> (r: u64)
    ensures
        r == float_of_int(i as int),
{
    Double::from_i128(i).value.to_bits() as u64
}

/// Relies on `rustc_apfloat`'s `Add for Double`: IEEE 754 addition with the
/// default rounding, a function of the two bit patterns alone.
#[verifier::external_body]
pub(crate) fn float_add(a: u64, b: u64) -> (r: u64)
    ensures
        r == float_add_bits(a, b),
{
    (Double::from_bits(a as u128) + Double::from_bits(b as u128)).value.to_bits() as u64
}

/// Relies on `rustc_apfloat`'s `Sub for Double`: IEEE 754 subtraction with
/// the default rounding, a function of the two bit patterns alone.
#[verifier::external_body]
pub(crate) fn float_sub(a: u64, b: u64) -> (r: u64)
    ensures
        r == float_sub_bits(a, b),
{
    (Double::from_bits(a as u128) - Double::from_bits(b as u128)).value.to_bits() as u64
}

/// Relies on `rustc_apfloat`'s `Mul for Double`: IEEE 754 multiplication with
/// the default rounding, a function of the two bit patterns alone.
#[verifier::external_body]
pub(crate) fn float_mul(a: u64, b: u64) -> (r: u64)
    ensures
        r == float_mul_bits(a, b),
{
    (Double::from_bits(a as u128) * Double::from_bits(b as u128)).value.to_bits() as u64
}

/// Relies on `rustc_apfloat`'s `Div for Double`: IEEE 754 division with the
/// default rounding, a function of the two bit patterns alone; division by
/// zero yields an infinity or NaN, never a fault.
#[verifier::external_body]
pub(crate) fn float_div(a: u64, b: u64) -> (r: u64)
    ensures
        r == float_div_bits(a, b),
{
    (Double::from_bits(a as u128) / Double::from_bits(b as u128)).value.to_bits() as u64
}

/// Relies on `rustc_apfloat`'s `Display for Double`, which prints a decimal
/// form that reads back to the same value; the text depends on the bit
/// pattern alone.
#[verifier::external_body]
pub(crate) fn float_to_text(bits: u64) -> (r: String)
    ensures
        r@ == float_text(bits),
{
    format!("{}", Double::from_bits(bits as u128))
}

} // verus!

use vstd::prelude::*;

use rustc_apfloat::Float;

verus! {

// Runtime numbers are IEEE-754 double-precision values, carried as their
// 64-bit encodings. The arithmetic on them is done by the `rustc_apfloat`
// soft-float library, whose operations are deterministic functions of the
// operand bit patterns (correctly-rounded IEEE-754 binary64, round to
// nearest, ties to even). The names below stand for the results of those
// operations.

/// What IEEE-754 double addition returns on the given operand encodings.
pub uninterp spec fn add_bits(a: u64, b: u64) -> u64;

/// What IEEE-754 double subtraction returns on the given operand encodings.
pub uninterp spec fn sub_bits(a: u64, b: u64) -> u64;

/// What IEEE-754 double multiplication returns on the given operand encodings.
pub uninterp spec fn mul_bits(a: u64, b: u64) -> u64;

/// What IEEE-754 double division returns on the given operand encodings
/// (division by zero yields an infinity or NaN encoding, never an error).
pub uninterp spec fn div_bits(a: u64, b: u64) -> u64;

/// Whether the first encoded double compares IEEE-less-than the second
/// (false whenever either operand is a NaN).
pub uninterp spec fn lt_bits(a: u64, b: u64) -> bool;

/// Whether the first encoded double compares IEEE-less-or-equal the second
/// (false whenever either operand is a NaN).
pub uninterp spec fn le_bits(a: u64, b: u64) -> bool;

/// Whether the two encoded doubles are IEEE-equal (NaN equals nothing,
/// positive and negative zero are equal).
pub uninterp spec fn eq_bits(a: u64, b: u64) -> bool;

/// The encoding of the double that the given text parses to, if it parses
/// as a numeral.
pub uninterp spec fn parse_bits_of(s: Seq<char>) -> Option<u64>;

/// The decimal text that the given encoded double prints as.
pub uninterp spec fn text_of_bits(a: u64) -> Seq<char>;

/// IEEE-754 negation: the sign bit flips and nothing else, for every
/// operand including infinities and NaNs.
pub open spec fn neg_bits(a: u64) -> u64 {
    a ^ 0x8000_0000_0000_0000u64
}

/// Relies on rustc_apfloat's `Add for IeeeFloat` (`add_r`, round to nearest,
/// ties to even): IEEE-754 binary64 addition of the operand encodings.
#[verifier::external_body]
pub(crate) fn num_add(a: u64, b: u64) -> (r: u64)
    ensures
        r == add_bits(a, b),
{
    let x = rustc_apfloat::ieee::Double::from_bits(a as u128);
    let y = rustc_apfloat::ieee::Double::from_bits(b as u128);
    (x + y).value.to_bits() as u64
}

/// Relies on rustc_apfloat's `Sub for IeeeFloat` (`sub_r`): IEEE-754
/// binary64 subtraction of the operand encodings.
#[verifier::external_body]
pub(crate) fn num_sub(a: u64, b: u64) -> (r: u64)
    ensures
        r == sub_bits(a, b),
{
    let x = rustc_apfloat::ieee::Double::from_bits(a as u128);
    let y = rustc_apfloat::ieee::Double::from_bits(b as u128);
    (x - y).value.to_bits() as u64
}

/// Relies on rustc_apfloat's `Mul for IeeeFloat` (`mul_r`): IEEE-754
/// binary64 multiplication of the operand encodings.
#[verifier::external_body]
pub(crate) fn num_mul(a: u64, b: u64) -> (r: u64)
    ensures
        r == mul_bits(a, b),
{
    let x = rustc_apfloat::ieee::Double::from_bits(a as u128);
    let y = rustc_apfloat::ieee::Double::from_bits(b as u128);
    (x * y).value.to_bits() as u64
}

/// Relies on rustc_apfloat's `Div for IeeeFloat` (`div_r`): IEEE-754
/// binary64 division of the operand encodings.
#[verifier::external_body]
pub(crate) fn num_div(a: u64, b: u64) -> (r: u64)
    ensures
        r == div_bits(a, b),
{
    let x = rustc_apfloat::ieee::Double::from_bits(a as u128);
    let y = rustc_apfloat::ieee::Double::from_bits(b as u128);
    (x / y).value.to_bits() as u64
}

/// IEEE-754 negation of an encoded double. Negation flips the sign bit and
/// changes nothing else, so it is computed here directly.
pub(crate) fn num_neg(a: u64) -> (r: u64)
    ensures
        r == neg_bits(a),
{
    a ^ 0x8000_0000_0000_0000u64
}

/// Relies on rustc_apfloat's `PartialOrd for IeeeFloat`: the IEEE-754
/// less-than comparison of the operand encodings.
#[verifier::external_body]
pub(crate) fn num_lt(a: u64, b: u64) -> (r: bool)
    ensures
        r == lt_bits(a, b),
{
    let x = rustc_apfloat::ieee::Double::from_bits(a as u128);
    let y = rustc_apfloat::ieee::Double::from_bits(b as u128);
    x < y
}

/// Relies on rustc_apfloat's `PartialOrd for IeeeFloat`: the IEEE-754
/// less-or-equal comparison of the operand encodings.
#[verifier::external_body]
pub(crate) fn num_le(a: u64, b: u64) -> (r: bool)
    ensures
        r == le_bits(a, b),
{
    let x = rustc_apfloat::ieee::Double::from_bits(a as u128);
    let y = rustc_apfloat::ieee::Double::from_bits(b as u128);
    x <= y
}

/// Relies on rustc_apfloat's `PartialEq for IeeeFloat`, which compares by
/// `partial_cmp`: IEEE-754 equality of the operand encodings.
#[verifier::external_body]
pub(crate) fn num_eq(a: u64, b: u64) -> (r: bool)
    ensures
        r == eq_bits(a, b),
{
    let x = rustc_apfloat::ieee::Double::from_bits(a as u128);
    let y = rustc_apfloat::ieee::Double::from_bits(b as u128);
    x == y
}

/// Relies on rustc_apfloat's `FromStr for IeeeFloat` (`from_str_r`): parses
/// decimal numeral text to a binary64 encoding, and rejects text that is no
/// numeral (the empty string included) with an error.
#[verifier::external_body]
pub(crate) fn parse_number(s: &str) -> (r: Option<u64>)
    ensures
        r == parse_bits_of(s@),
{
    match s.parse::<rustc_apfloat::ieee::Double>() {
        Ok(value) => Some(value.to_bits() as u64),
        Err(_) => None,
    }
}

/// Relies on rustc_apfloat's `Display for IeeeFloat`: prints the encoded
/// double as decimal text, a deterministic function of the encoding.
#[verifier::external_body]
pub(crate) fn num_to_text(a: u64) -> (r: String)
    ensures
        r@ == text_of_bits(a),
{
    format!("{}", rustc_apfloat::ieee::Double::from_bits(a as u128))
}

} // verus!

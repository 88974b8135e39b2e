//! Runtime numbers.
//!
//! The language's numbers are IEEE-754 double-precision values.  The library
//! carries them as their 64-bit encodings and performs every operation on
//! them through `rustc_apfloat`, a software implementation of the same
//! arithmetic.  Each operation is named by an uninterpreted spec function of
//! the operand bits alone, which is sound because every one of these
//! operations is a pure function of its operands.

use vstd::prelude::*;

verus! {

/// The double-precision value denoted by a numeric literal, as bits.
pub uninterp spec fn num_of_lexeme(s: Seq<char>) -> u64;

/// The double-precision value nearest to an unsigned integer, as bits.
pub uninterp spec fn num_of_int(n: u64) -> u64;

/// IEEE double addition on bit encodings.
pub uninterp spec fn num_add(a: u64, b: u64) -> u64;

/// IEEE double subtraction on bit encodings.
pub uninterp spec fn num_sub(a: u64, b: u64) -> u64;

/// IEEE double multiplication on bit encodings.
pub uninterp spec fn num_mul(a: u64, b: u64) -> u64;

/// IEEE double division on bit encodings.
pub uninterp spec fn num_div(a: u64, b: u64) -> u64;

/// IEEE double negation on a bit encoding.
pub uninterp spec fn num_neg(a: u64) -> u64;

/// IEEE `<` on bit encodings.
pub uninterp spec fn num_lt(a: u64, b: u64) -> bool;

/// IEEE `<=` on bit encodings.
pub uninterp spec fn num_le(a: u64, b: u64) -> bool;

/// IEEE `>` on bit encodings.
pub uninterp spec fn num_gt(a: u64, b: u64) -> bool;

/// IEEE `>=` on bit encodings.
pub uninterp spec fn num_ge(a: u64, b: u64) -> bool;

/// IEEE `==` on bit encodings.
pub uninterp spec fn num_eq(a: u64, b: u64) -> bool;

/// Whether the encoded double has no fractional part.
pub uninterp spec fn num_is_int(a: u64) -> bool;

/// The decimal rendering of the encoded double.
pub uninterp spec fn num_display(a: u64) -> Seq<char>;

/// Relies on rustc_apfloat's `Double::from_str` (correctly rounded decimal
/// parsing) and `to_bits`.  A malformed literal falls back to the zero
/// encoding; the lexer only hands over well-formed decimal literals.
#[verifier::external_body]
pub fn parse_number(s: &str) -> (r: u64)
    ensures
        r == num_of_lexeme(s@),
{
    match s.parse::<rustc_apfloat::ieee::Double>() {
        Ok(d) => rustc_apfloat::Float::to_bits(d) as u64,
        Err(_) => 0,
    }
}

/// Relies on rustc_apfloat's `Float::from_u128` (round to nearest) and `to_bits`.
#[verifier::external_body]
pub fn number_of_int(n: u64) -> (r: u64)
    ensures
        r == num_of_int(n),
{
    let d: rustc_apfloat::StatusAnd<rustc_apfloat::ieee::Double> =
        rustc_apfloat::Float::from_u128(n as u128);
    rustc_apfloat::Float::to_bits(d.value) as u64
}

/// Relies on rustc_apfloat's `Add` impl for `Double` (IEEE addition, default rounding).
#[verifier::external_body]
pub fn add_numbers(a: u64, b: u64) -> (r: u64)
    ensures
        r == num_add(a, b),
{
    let x: rustc_apfloat::ieee::Double = rustc_apfloat::Float::from_bits(a as u128);
    let y: rustc_apfloat::ieee::Double = rustc_apfloat::Float::from_bits(b as u128);
    rustc_apfloat::Float::to_bits((x + y).value) as u64
}

/// Relies on rustc_apfloat's `Sub` impl for `Double` (IEEE subtraction, default rounding).
#[verifier::external_body]
pub fn sub_numbers(a: u64, b: u64) -> (r: u64)
    ensures
        r == num_sub(a, b),
{
    let x: rustc_apfloat::ieee::Double = rustc_apfloat::Float::from_bits(a as u128);
    let y: rustc_apfloat::ieee::Double = rustc_apfloat::Float::from_bits(b as u128);
    rustc_apfloat::Float::to_bits((x - y).value) as u64
}

/// Relies on rustc_apfloat's `Mul` impl for `Double` (IEEE multiplication, default rounding).
#[verifier::external_body]
pub fn mul_numbers(a: u64, b: u64) -> (r: u64)
    ensures
        r == num_mul(a, b),
{
    let x: rustc_apfloat::ieee::Double = rustc_apfloat::Float::from_bits(a as u128);
    let y: rustc_apfloat::ieee::Double = rustc_apfloat::Float::from_bits(b as u128);
    rustc_apfloat::Float::to_bits((x * y).value) as u64
}

/// Relies on rustc_apfloat's `Div` impl for `Double` (IEEE division, default rounding).
#[verifier::external_body]
pub fn div_numbers(a: u64, b: u64) -> (r: u64)
    ensures
        r == num_div(a, b),
{
    let x: rustc_apfloat::ieee::Double = rustc_apfloat::Float::from_bits(a as u128);
    let y: rustc_apfloat::ieee::Double = rustc_apfloat::Float::from_bits(b as u128);
    rustc_apfloat::Float::to_bits((x / y).value) as u64
}

/// Relies on rustc_apfloat's `Neg` impl for `Double` (IEEE sign flip).
#[verifier::external_body]
pub fn neg_number(a: u64) -> (r: u64)
    ensures
        r == num_neg(a),
{
    let x: rustc_apfloat::ieee::Double = rustc_apfloat::Float::from_bits(a as u128);
    rustc_apfloat::Float::to_bits(-x) as u64
}

/// Relies on `PartialOrd::lt` for `Double` (IEEE ordering; false on NaN).
#[verifier::external_body]
pub fn lt_numbers(a: u64, b: u64) -> (r: bool)
    ensures
        r == num_lt(a, b),
{
    let x: rustc_apfloat::ieee::Double = rustc_apfloat::Float::from_bits(a as u128);
    let y: rustc_apfloat::ieee::Double = rustc_apfloat::Float::from_bits(b as u128);
    x < y
}

/// Relies on `PartialOrd::le` for `Double` (IEEE ordering; false on NaN).
#[verifier::external_body]
pub fn le_numbers(a: u64, b: u64) -> (r: bool)
    ensures
        r == num_le(a, b),
{
    let x: rustc_apfloat::ieee::Double = rustc_apfloat::Float::from_bits(a as u128);
    let y: rustc_apfloat::ieee::Double = rustc_apfloat::Float::from_bits(b as u128);
    x <= y
}

/// Relies on `PartialOrd::gt` for `Double` (IEEE ordering; false on NaN).
#[verifier::external_body]
pub fn gt_numbers(a: u64, b: u64) -> (r: bool)
    ensures
        r == num_gt(a, b),
{
    let x: rustc_apfloat::ieee::Double = rustc_apfloat::Float::from_bits(a as u128);
    let y: rustc_apfloat::ieee::Double = rustc_apfloat::Float::from_bits(b as u128);
    x > y
}

/// Relies on `PartialOrd::ge` for `Double` (IEEE ordering; false on NaN).
#[verifier::external_body]
pub fn ge_numbers(a: u64, b: u64) -> (r: bool)
    ensures
        r == num_ge(a, b),
{
    let x: rustc_apfloat::ieee::Double = rustc_apfloat::Float::from_bits(a as u128);
    let y: rustc_apfloat::ieee::Double = rustc_apfloat::Float::from_bits(b as u128);
    x >= y
}

/// Relies on `PartialEq::eq` for `Double` (IEEE equality; false on NaN,
/// true across the two zero encodings).
#[verifier::external_body]
pub fn eq_numbers(a: u64, b: u64) -> (r: bool)
    ensures
        r == num_eq(a, b),
{
    let x: rustc_apfloat::ieee::Double = rustc_apfloat::Float::from_bits(a as u128);
    let y: rustc_apfloat::ieee::Double = rustc_apfloat::Float::from_bits(b as u128);
    x == y
}

/// Relies on rustc_apfloat's `Float::is_integer`.
#[verifier::external_body]
pub fn number_is_int(a: u64) -> (r: bool)
    ensures
        r == num_is_int(a),
{
    let x: rustc_apfloat::ieee::Double = rustc_apfloat::Float::from_bits(a as u128);
    rustc_apfloat::Float::is_integer(x)
}

/// Relies on rustc_apfloat's `Display` impl for `Double` (decimal rendering,
/// a function of the encoded value alone; the width passed here only raises
/// its threshold for falling back to exponent notation, so ordinary values
/// print in plain decimal, and no padding is emitted).  Values with no
/// short exact decimal form render with full precision rather than the
/// shortest round-tripping digits.
#[verifier::external_body]
pub fn display_number(a: u64) -> (r: String)
    ensures
        r@ == num_display(a),
{
    let x: rustc_apfloat::ieee::Double = rustc_apfloat::Float::from_bits(a as u128);
    format!("{:700}", x)
}

/// Relies on std::time: `SystemTime::now`, `duration_since(UNIX_EPOCH)` and
/// `Duration::as_millis`.  Whole milliseconds since the Unix epoch; zero if
/// the clock reads earlier than the epoch.  No two calls need agree.
#[verifier::external_body]
pub fn unix_time_millis() -> u64 {
    match std::time::SystemTime::now().duration_since(std::time::UNIX_EPOCH) {
        Ok(d) => d.as_millis() as u64,
        Err(_) => 0,
    }
}

} // verus!

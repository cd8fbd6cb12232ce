//! Lox numbers are IEEE double-precision values, carried as their 64-bit
//! pattern. The arithmetic itself is done by the software floating-point
//! crate `rustc_apfloat`; each operation is named by an uninterpreted
//! spec function, since its result is a function of the bit patterns alone.
use rustc_apfloat::Float;
use rustc_apfloat::ieee::Double;
use vstd::prelude::*;

verus! {

pub open spec fn spec_is_digit(c: char) -> bool {
    48 <= c as u32 <= 57
}

/// Digits with a single dot at position `k`, a digit on each side of it.
pub open spec fn spec_dotted_digits(s: Seq<char>, k: int) -> bool {
    0 < k < s.len() - 1 && s[k] == '.' && (forall|i: int|
        0 <= i < s.len() && i != k ==> spec_is_digit(#[trigger] s[i]))
}

/// The shape of a number lexeme: digits, optionally followed by a dot
/// with at least one digit on each side.
pub open spec fn spec_is_number_lexeme(s: Seq<char>) -> bool {
    s.len() > 0 && ((forall|i: int| 0 <= i < s.len() ==> spec_is_digit(#[trigger] s[i])) || (exists|
        k: int,
    | #[trigger] spec_dotted_digits(s, k)))
}

pub uninterp spec fn num_of_lexeme(s: Seq<char>) -> u64;

pub uninterp spec fn num_add_bits(a: u64, b: u64) -> u64;

pub uninterp spec fn num_sub_bits(a: u64, b: u64) -> u64;

pub uninterp spec fn num_mul_bits(a: u64, b: u64) -> u64;

pub uninterp spec fn num_div_bits(a: u64, b: u64) -> u64;

pub uninterp spec fn num_neg_bits(a: u64) -> u64;

pub uninterp spec fn num_lt_bits(a: u64, b: u64) -> bool;

pub uninterp spec fn num_le_bits(a: u64, b: u64) -> bool;

pub uninterp spec fn num_gt_bits(a: u64, b: u64) -> bool;

pub uninterp spec fn num_ge_bits(a: u64, b: u64) -> bool;

pub uninterp spec fn num_eq_bits(a: u64, b: u64) -> bool;

pub uninterp spec fn num_text(a: u64) -> Seq<char>;

/// Relies on `Double::from_str` (round to nearest, ties to even): the value
/// depends on the characters alone, and on a digit string with at most one
/// interior dot its only failure modes (empty input, misplaced dot or sign,
/// invalid character) cannot occur.
#[verifier::external_body]
pub(crate) fn num_parse(s: &str) -> (r: u64)
    requires
        spec_is_number_lexeme(s@),
    ensures
        r == num_of_lexeme(s@),
{
    let v: Double = s.parse().unwrap();
    v.to_bits() as u64
}

/// Relies on `Double`'s `Display`: a decimal rendering determined by the
/// bit pattern alone. The format width is that implementation's threshold
/// for falling back to scientific notation, and it never pads, so with a
/// large width only values whose digits and exponent together exceed the
/// seventeen-digit precision render scientifically; unlike the host's
/// own rendering, inexact values show all seventeen digits (`0.1` prints
/// as `0.10000000000000001`) and infinities print as `+Inf`/`-Inf`.
#[verifier::external_body]
pub(crate) fn num_render(a: u64) -> (r: String)
    ensures
        r@ == num_text(a),
{
    format!("{:5000}", Double::from_bits(a as u128))
}

/// Relies on `Double`'s `Add` (round to nearest, ties to even).
#[verifier::external_body]
pub(crate) fn num_add(a: u64, b: u64) -> (r: u64)
    ensures
        r == num_add_bits(a, b),
{
    let x = Double::from_bits(a as u128);
    let y = Double::from_bits(b as u128);
    (x + y).value.to_bits() as u64
}

/// Relies on `Double`'s `Sub` (round to nearest, ties to even).
#[verifier::external_body]
pub(crate) fn num_sub(a: u64, b: u64) -> (r: u64)
    ensures
        r == num_sub_bits(a, b),
{
    let x = Double::from_bits(a as u128);
    let y = Double::from_bits(b as u128);
    (x - y).value.to_bits() as u64
}

/// Relies on `Double`'s `Mul` (round to nearest, ties to even).
#[verifier::external_body]
pub(crate) fn num_mul(a: u64, b: u64) -> (r: u64)
    ensures
        r == num_mul_bits(a, b),
{
    let x = Double::from_bits(a as u128);
    let y = Double::from_bits(b as u128);
    (x * y).value.to_bits() as u64
}

/// Relies on `Double`'s `Div` (round to nearest, ties to even).
#[verifier::external_body]
pub(crate) fn num_div(a: u64, b: u64) -> (r: u64)
    ensures
        r == num_div_bits(a, b),
{
    let x = Double::from_bits(a as u128);
    let y = Double::from_bits(b as u128);
    (x / y).value.to_bits() as u64
}

/// Relies on `Double`'s `Neg`, which flips the sign bit.
#[verifier::external_body]
pub(crate) fn num_neg(a: u64) -> (r: u64)
    ensures
        r == num_neg_bits(a),
{
    (-Double::from_bits(a as u128)).to_bits() as u64
}

/// Relies on `Double`'s `PartialOrd` (IEEE ordering; false when unordered).
#[verifier::external_body]
pub(crate) fn num_lt(a: u64, b: u64) -> (r: bool)
    ensures
        r == num_lt_bits(a, b),
{
    Double::from_bits(a as u128) < Double::from_bits(b as u128)
}

/// Relies on `Double`'s `PartialOrd` (IEEE ordering; false when unordered).
#[verifier::external_body]
pub(crate) fn num_le(a: u64, b: u64) -> (r: bool)
    ensures
        r == num_le_bits(a, b),
{
    Double::from_bits(a as u128) <= Double::from_bits(b as u128)
}

/// Relies on `Double`'s `PartialOrd` (IEEE ordering; false when unordered).
#[verifier::external_body]
pub(crate) fn num_gt(a: u64, b: u64) -> (r: bool)
    ensures
        r == num_gt_bits(a, b),
{
    Double::from_bits(a as u128) > Double::from_bits(b as u128)
}

/// Relies on `Double`'s `PartialOrd` (IEEE ordering; false when unordered).
#[verifier::external_body]
pub(crate) fn num_ge(a: u64, b: u64) -> (r: bool)
    ensures
        r == num_ge_bits(a, b),
{
    Double::from_bits(a as u128) >= Double::from_bits(b as u128)
}

/// Relies on `Double`'s `PartialEq` (IEEE equality: zeros of either sign
/// are equal, NaN is equal to nothing).
#[verifier::external_body]
pub(crate) fn num_eq(a: u64, b: u64) -> (r: bool)
    ensures
        r == num_eq_bits(a, b),
{
    Double::from_bits(a as u128) == Double::from_bits(b as u128)
}

} // verus!

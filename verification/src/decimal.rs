//! Arbitrary-precision decimal amounts.

use bigdecimal::BigDecimal;
use vstd::prelude::*;

verus! {

/// `bigdecimal::BigDecimal`, an arbitrary-precision decimal number, carried
/// as an opaque value.
#[verifier::external_type_specification]
#[verifier::external_body]
pub struct ExBigDecimal(BigDecimal);

/// Whether a decimal is greater than zero.
pub uninterp spec fn decimal_is_positive(a: BigDecimal) -> bool;

/// Compares `a` with zero through `BigDecimal`'s `PartialOrd`, which orders
/// decimals by their numeric value; the result is named
/// [`decimal_is_positive`].
#[verifier::external_body]
pub(crate) fn is_positive(a: &BigDecimal) -> (r: bool)
    ensures
        r == decimal_is_positive(*a),
{
    *a > BigDecimal::from(0)
}

/// The decimal with the integer value `n`.
pub uninterp spec fn decimal_of(n: i64) -> BigDecimal;

/// The sum of two decimals, as `BigDecimal`'s addition computes it.
pub uninterp spec fn decimal_sum(a: BigDecimal, b: BigDecimal) -> BigDecimal;

/// The text of a decimal, as `BigDecimal`'s `Display` writes it.
pub uninterp spec fn decimal_text(a: BigDecimal) -> Seq<char>;

/// Converts through `BigDecimal::from(i64)`; the result is named
/// [`decimal_of`].
#[verifier::external_body]
pub(crate) fn decimal_from_i64(n: i64) -> (r: BigDecimal)
    ensures
        r == decimal_of(n),
{
    BigDecimal::from(n)
}

/// Adds owned copies of the two decimals through `BigDecimal`'s `Add`; the
/// result is named [`decimal_sum`].
#[verifier::external_body]
pub(crate) fn add_decimals(a: &BigDecimal, b: &BigDecimal) -> (r: BigDecimal)
    ensures
        r == decimal_sum(*a, *b),
{
    a.clone() + b.clone()
}

/// Writes the decimal through its `Display`; the result is named
/// [`decimal_text`].
#[verifier::external_body]
pub(crate) fn decimal_to_string(a: &BigDecimal) -> (r: String)
    ensures
        r@ == decimal_text(*a),
{
    a.to_string()
}

} // verus!

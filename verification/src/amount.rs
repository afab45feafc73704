//! Decimal amounts and the arithmetic the ledger does on them.

use rust_decimal::Decimal;
use vstd::prelude::*;

verus! {

/// Largest number of decimal places a decimal can carry.
pub const MAX_SCALE: u32 = 28;

/// Largest magnitude of a decimal's mantissa, `2^96 - 1`.
pub const MAX_MANTISSA: i128 = 79_228_162_514_264_337_593_543_950_335;

/// How many decimal places of a transaction amount are kept.
pub const TX_AMOUNT_DECIMAL_PLACES: u32 = 4;

/// A decimal number as mathematics sees it: `mantissa / 10^scale`.
pub struct Dec {
    pub mantissa: int,
    pub scale: nat,
}

/// `10^n`.
pub open spec fn pow10(n: nat) -> int
    decreases n,
{
    if n == 0 {
        1
    } else {
        10 * pow10((n - 1) as nat)
    }
}

/// `m / d` rounded to the nearest integer, a tie going to the even neighbour.
/// The sign of `m` is carried over: the magnitude is what gets rounded.
pub open spec fn round_half_even(m: int, d: int) -> int
    recommends
        d > 0,
{
    let a: int = if m < 0 { -m } else { m };
    let q: int = a / d;
    let r: int = a % d;
    let n: int = if 2 * r > d || (2 * r == d && q % 2 == 1) { q + 1 } else { q };
    if m < 0 { -n } else { n }
}

/// `v` rounded half-to-even to at most `dp` decimal places. A value that has no
/// more than `dp` places is left as it is, scale included.
pub open spec fn rounded(v: Dec, dp: nat) -> Dec {
    if v.scale <= dp {
        v
    } else {
        Dec { mantissa: round_half_even(v.mantissa, pow10((v.scale - dp) as nat)), scale: dp }
    }
}

/// `m * 10^k` for `k` from 0 to 4.
pub open spec fn raise(m: int, k: int) -> int
    recommends
        0 <= k <= 4,
{
    if k <= 0 {
        m
    } else if k == 1 {
        m * 10
    } else if k == 2 {
        m * 100
    } else if k == 3 {
        m * 1000
    } else {
        m * 10000
    }
}

/// The value of `v` in ten-thousandths, for a `v` of at most four places.
pub open spec fn units(v: Dec) -> int
    recommends
        v.scale <= 4,
{
    raise(v.mantissa, 4 - v.scale)
}

/// Whether `m` can be the mantissa of a decimal.
pub open spec fn fits(m: int) -> bool {
    -MAX_MANTISSA <= m <= MAX_MANTISSA
}

/// What a 96-bit decimal can hold at all.
pub open spec fn representable(v: Dec) -> bool {
    v.scale <= MAX_SCALE && fits(v.mantissa)
}

/// The amounts the ledger computes with: decimals of at most four places.
pub open spec fn short(v: Dec) -> bool {
    v.scale <= TX_AMOUNT_DECIMAL_PLACES && representable(v)
}

pub open spec fn dec_zero() -> Dec {
    Dec { mantissa: 0, scale: 0 }
}

pub open spec fn dec_neg(v: Dec) -> Dec {
    Dec { mantissa: -v.mantissa, scale: v.scale }
}

pub open spec fn larger_scale(a: Dec, b: Dec) -> nat {
    if a.scale >= b.scale {
        a.scale
    } else {
        b.scale
    }
}

/// The sum of two amounts of at most four places. Adding to zero hands the other
/// operand back with its own scale; otherwise the sum carries the larger of the
/// two scales.
pub open spec fn dec_add(a: Dec, b: Dec) -> Dec
    recommends
        a.scale <= 4,
        b.scale <= 4,
{
    if a.mantissa == 0 {
        b
    } else if b.mantissa == 0 {
        a
    } else {
        let s: nat = larger_scale(a, b);
        Dec { mantissa: raise(a.mantissa, s - a.scale) + raise(b.mantissa, s - b.scale), scale: s }
    }
}

/// Whether a decimal can hold the sum of `a` and `b` without rounding: one of
/// them is zero, or both of them, written out to the larger of their scales,
/// and their sum at that scale, are mantissas of a decimal.
pub open spec fn sum_is_exact(a: Dec, b: Dec) -> bool
    recommends
        a.scale <= 4,
        b.scale <= 4,
{
    a.mantissa == 0 || b.mantissa == 0 || ({
        let s: nat = larger_scale(a, b);
        &&& fits(raise(a.mantissa, s - a.scale))
        &&& fits(raise(b.mantissa, s - b.scale))
        &&& fits(raise(a.mantissa, s - a.scale) + raise(b.mantissa, s - b.scale))
    })
}

/// The sum of two amounts, where both have at most four places and a decimal
/// can hold their exact sum.
pub open spec fn checked_sum(a: Dec, b: Dec) -> Option<Dec> {
    if short(a) && short(b) && sum_is_exact(a, b) {
        Some(dec_add(a, b))
    } else {
        None
    }
}

/// The difference of two amounts, under the same conditions.
pub open spec fn checked_diff(a: Dec, b: Dec) -> Option<Dec> {
    checked_sum(a, dec_neg(b))
}

/// Whether `a` is worth at least as much as `b`: the two compared as fractions.
pub open spec fn dec_ge(a: Dec, b: Dec) -> bool {
    a.mantissa * pow10(b.scale) >= b.mantissa * pow10(a.scale)
}

/// A sum that is given is again an amount of at most four places.
pub proof fn lemma_sum_is_short(a: Dec, b: Dec)
    ensures
        checked_sum(a, b) matches Some(c) ==> short(a) && short(b) && short(c),
{
}

/// Sums and differences that are given are exact: they add and subtract the
/// ten-thousandths.
pub proof fn lemma_sum_in_units(a: Dec, b: Dec)
    ensures
        checked_sum(a, b) matches Some(c) ==> units(c) == units(a) + units(b),
        checked_diff(a, b) matches Some(c) ==> units(c) == units(a) - units(b),
{
}

/// Amounts of at most four places compare as their ten-thousandths do.
pub proof fn lemma_ge_by_units(a: Dec, b: Dec)
    requires
        a.scale <= 4,
        b.scale <= 4,
    ensures
        dec_ge(a, b) == (units(a) >= units(b)),
{
    reveal_with_fuel(pow10, 5);
    assert(pow10(0) == 1 && pow10(1) == 10 && pow10(2) == 100 && pow10(3) == 1000 && pow10(4)
        == 10000);
}

pub open spec fn opt_dec(o: Option<Amount>) -> Option<Dec> {
    match o {
        Some(a) => Some(a@),
        None => None,
    }
}

/// The arithmetic would have left the range in which it is exact.
#[derive(Clone, Copy, Debug, PartialEq, Eq)]
pub struct Overflow;

/// A decimal amount: `mantissa / 10^scale`, with a mantissa of at most 96 bits
/// and a scale of at most 28.
#[derive(Clone, Copy, Debug)]
pub struct Amount {
    mantissa: i128,
    scale: u32,
}

impl View for Amount {
    type V = Dec;

    closed spec fn view(&self) -> Dec {
        Dec { mantissa: self.mantissa as int, scale: self.scale as nat }
    }
}

/// `Decimal::round_dp`: the contract says that a decimal of no more than `dp`
/// places comes back untouched, and that any other has its magnitude divided by
/// `10^(scale - dp)`, rounded half-to-even, and comes back at scale `dp` with
/// the sign it had.
#[verifier::external_body]
fn decimal_round_dp(a: Amount, dp: u32) -> (r: Amount)
    requires
        representable(a@),
    ensures
        representable(r@),
        r@ == rounded(a@, dp as nat),
{
    let d = Decimal::from_i128_with_scale(a.mantissa, a.scale).round_dp(dp);
    Amount { mantissa: d.mantissa(), scale: d.scale() }
}

/// `Decimal`'s `+`: the contract says that for two decimals of at most four
/// places whose sum a decimal can hold without rounding, the result is that sum,
/// with the scale that `dec_add` gives it. On other operands the operator may
/// round or panic, so they are left out.
#[verifier::external_body]
fn decimal_add(a: Amount, b: Amount) -> (r: Amount)
    requires
        short(a@),
        short(b@),
        sum_is_exact(a@, b@),
    ensures
        representable(r@),
        r@ == dec_add(a@, b@),
{
    let d = Decimal::from_i128_with_scale(a.mantissa, a.scale)
        + Decimal::from_i128_with_scale(b.mantissa, b.scale);
    Amount { mantissa: d.mantissa(), scale: d.scale() }
}

/// `Decimal`'s `-`: as for `+`, the contract says that the result is the exact
/// difference where a decimal can hold it without rounding.
#[verifier::external_body]
fn decimal_sub(a: Amount, b: Amount) -> (r: Amount)
    requires
        short(a@),
        short(b@),
        sum_is_exact(a@, dec_neg(b@)),
    ensures
        representable(r@),
        r@ == dec_add(a@, dec_neg(b@)),
{
    let d = Decimal::from_i128_with_scale(a.mantissa, a.scale)
        - Decimal::from_i128_with_scale(b.mantissa, b.scale);
    Amount { mantissa: d.mantissa(), scale: d.scale() }
}

/// `Decimal`'s `>=`: the contract says that it orders two decimals by their
/// value, whatever their scales.
#[verifier::external_body]
fn decimal_ge(a: Amount, b: Amount) -> (r: bool)
    requires
        representable(a@),
        representable(b@),
    ensures
        r == dec_ge(a@, b@),
{
    Decimal::from_i128_with_scale(a.mantissa, a.scale)
        >= Decimal::from_i128_with_scale(b.mantissa, b.scale)
}

/// `m * 10^k`.
fn lift(m: i128, k: u32) -> (r: i128)
    requires
        fits(m as int),
        k <= 4,
    ensures
        r == raise(m as int, k as int),
{
    if k == 0 {
        m
    } else if k == 1 {
        m * 10
    } else if k == 2 {
        m * 100
    } else if k == 3 {
        m * 1000
    } else {
        m * 10000
    }
}

fn is_mantissa(m: i128) -> (r: bool)
    ensures
        r == fits(m as int),
{
    -MAX_MANTISSA <= m && m <= MAX_MANTISSA
}

/// Whether a decimal can hold `a_mantissa / 10^a_scale + b_mantissa / 10^b_scale`
/// without rounding.
fn sum_fits(a_mantissa: i128, a_scale: u32, b_mantissa: i128, b_scale: u32) -> (r: bool)
    requires
        fits(a_mantissa as int),
        fits(b_mantissa as int),
        a_scale <= 4,
        b_scale <= 4,
    ensures
        r == sum_is_exact(
            Dec { mantissa: a_mantissa as int, scale: a_scale as nat },
            Dec { mantissa: b_mantissa as int, scale: b_scale as nat },
        ),
{
    if a_mantissa == 0 || b_mantissa == 0 {
        return true;
    }
    let s: u32 = if a_scale >= b_scale { a_scale } else { b_scale };
    let x: i128 = lift(a_mantissa, s - a_scale);
    let y: i128 = lift(b_mantissa, s - b_scale);
    is_mantissa(x) && is_mantissa(y) && is_mantissa(x + y)
}

impl Amount {
    #[verifier::type_invariant]
    spec fn inv(self) -> bool {
        representable(self@)
    }

    /// The amount `mantissa / 10^scale`, if a decimal can hold it.
    pub fn new(mantissa: i128, scale: u32) -> (r: Option<Amount>)
        ensures
            r is Some <==> representable(Dec { mantissa: mantissa as int, scale: scale as nat }),
            r matches Some(a) ==> a@ == (Dec { mantissa: mantissa as int, scale: scale as nat }),
    {
        if scale <= MAX_SCALE && is_mantissa(mantissa) {
            Some(Amount { mantissa, scale })
        } else {
            None
        }
    }

    /// Zero, with no decimal places.
    pub fn zero() -> (r: Amount)
        ensures
            r@ == dec_zero(),
    {
        Amount { mantissa: 0, scale: 0 }
    }

    pub fn mantissa(&self) -> (m: i128)
        ensures
            m == self@.mantissa,
            representable(self@),
    {
        proof {
            use_type_invariant(self);
        }
        self.mantissa
    }

    pub fn scale(&self) -> (s: u32)
        ensures
            s == self@.scale,
            representable(self@),
    {
        proof {
            use_type_invariant(self);
        }
        self.scale
    }

    /// The amount rounded half-to-even to at most `dp` decimal places.
    pub fn round_dp(self, dp: u32) -> (r: Amount)
        ensures
            representable(r@),
            r@ == rounded(self@, dp as nat),
    {
        proof {
            use_type_invariant(self);
        }
        decimal_round_dp(self, dp)
    }

    /// The exact sum, where both amounts have at most four places and a decimal
    /// can hold it.
    pub fn checked_add(self, other: Amount) -> (r: Option<Amount>)
        ensures
            opt_dec(r) == checked_sum(self@, other@),
    {
        proof {
            use_type_invariant(self);
            use_type_invariant(other);
        }
        if self.scale <= TX_AMOUNT_DECIMAL_PLACES && other.scale <= TX_AMOUNT_DECIMAL_PLACES && sum_fits(
            self.mantissa,
            self.scale,
            other.mantissa,
            other.scale,
        ) {
            Some(decimal_add(self, other))
        } else {
            None
        }
    }

    /// The exact difference, where both amounts have at most four places and a
    /// decimal can hold it.
    pub fn checked_sub(self, other: Amount) -> (r: Option<Amount>)
        ensures
            opt_dec(r) == checked_diff(self@, other@),
    {
        proof {
            use_type_invariant(self);
            use_type_invariant(other);
        }
        if self.scale <= TX_AMOUNT_DECIMAL_PLACES && other.scale <= TX_AMOUNT_DECIMAL_PLACES && sum_fits(
            self.mantissa,
            self.scale,
            -other.mantissa,
            other.scale,
        ) {
            Some(decimal_sub(self, other))
        } else {
            None
        }
    }

    /// Whether `self` is worth at least as much as `other`.
    pub fn at_least(self, other: Amount) -> (r: bool)
        ensures
            r == dec_ge(self@, other@),
            self@.scale <= 4 && other@.scale <= 4 ==> r == (units(self@) >= units(other@)),
    {
        proof {
            use_type_invariant(self);
            use_type_invariant(other);
            if self@.scale <= 4 && other@.scale <= 4 {
                lemma_ge_by_units(self@, other@);
            }
        }
        decimal_ge(self, other)
    }
}

} // verus!

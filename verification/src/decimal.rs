//! Fixed-point decimal numbers as `rust_decimal` represents them.
//!
//! A `Dec` holds the plain parts of a `rust_decimal::Decimal`: a signed
//! 96-bit mantissa and a scale between 0 and 28, standing for the number
//! `mantissa * 10^-scale`.  Every arithmetic operation is done by
//! `rust_decimal` itself; the library only converts to and from the parts.
use rust_decimal::Decimal;
use vstd::prelude::*;

verus! {

#[verifier::external_type_specification]
#[verifier::external_body]
pub struct ExDecimal(Decimal);

/// Largest mantissa magnitude a decimal can hold (2^96 - 1).
pub const MAX_MANTISSA: i128 = 0xFFFF_FFFF_FFFF_FFFF_FFFF_FFFF;

/// Largest number of fractional digits a decimal can hold.
pub const MAX_SCALE: u32 = 28;

/// The number `mantissa * 10^-scale`.
#[derive(Clone, Copy, Debug)]
pub struct Dec {
    pub mantissa: i128,
    pub scale: u32,
}

/// `10^n`.
pub open spec fn pow10(n: nat) -> int
    decreases n,
{
    if n == 0 {
        1
    } else {
        10 * pow10((n - 1) as nat)
    }
}

pub proof fn lemma_pow10_positive(n: nat)
    ensures
        pow10(n) > 0,
    decreases n,
{
    if n > 0 {
        lemma_pow10_positive((n - 1) as nat);
    }
}

/// A decimal's units have the sign of its mantissa.
pub proof fn lemma_units_sign(d: Dec)
    ensures
        d.mantissa >= 0 ==> d.units() >= 0,
        d.mantissa > 0 ==> d.units() > 0,
        d.mantissa == 0 ==> d.units() == 0,
        d.mantissa < 0 ==> d.units() < 0,
{
    let p = pow10((MAX_SCALE - d.scale) as nat);
    lemma_pow10_positive((MAX_SCALE - d.scale) as nat);
    assert(d.mantissa >= 0 ==> d.mantissa * p >= 0) by (nonlinear_arith)
        requires
            p > 0,
    ;
    assert(d.mantissa > 0 ==> d.mantissa * p > 0) by (nonlinear_arith)
        requires
            p > 0,
    ;
    assert(d.mantissa < 0 ==> d.mantissa * p < 0) by (nonlinear_arith)
        requires
            p > 0,
    ;
}

impl Dec {
    /// The parts are within what `rust_decimal` accepts.
    pub open spec fn wf(self) -> bool {
        &&& self.scale <= MAX_SCALE
        &&& -MAX_MANTISSA <= self.mantissa <= MAX_MANTISSA
    }

    /// The value counted in units of `10^-28`, the finest step a decimal has.
    /// Two decimals stand for the same number exactly when their units agree.
    pub open spec fn units(self) -> int {
        self.mantissa * pow10((MAX_SCALE - self.scale) as nat)
    }

    /// The decimal `num * 10^-scale`, as `Decimal::new` builds it.
    pub fn new(num: i64, scale: u32) -> (d: Dec)
        requires
            scale <= MAX_SCALE,
        ensures
            d.mantissa == num,
            d.scale == scale,
            d == dn(num as int, scale),
            d.wf(),
    {
        Dec { mantissa: num as i128, scale }
    }

    /// The whole number `n`, for a count.
    pub fn from_usize(n: usize) -> (d: Dec)
        ensures
            d.mantissa == n,
            d.scale == 0,
            d == spec_int(n as int),
            d.wf(),
    {
        Dec { mantissa: n as i128, scale: 0 }
    }

    /// The whole number one past the count `n`.
    pub fn from_usize_succ(n: usize) -> (d: Dec)
        ensures
            d == spec_int(n + 1),
            d.wf(),
    {
        Dec { mantissa: n as i128 + 1, scale: 0 }
    }
}

/// The decimal `m * 10^-s`.
pub open spec fn dn(m: int, s: u32) -> Dec {
    Dec { mantissa: m as i128, scale: s }
}

/// Zero.
pub open spec fn spec_zero() -> Dec {
    Dec { mantissa: 0, scale: 0 }
}

/// One.
pub open spec fn spec_one() -> Dec {
    Dec { mantissa: 1, scale: 0 }
}

/// The whole number `n`.
pub open spec fn spec_int(n: int) -> Dec {
    Dec { mantissa: n as i128, scale: 0 }
}

/// `-d`: the mantissa negated at the same scale.
pub open spec fn spec_neg(d: Dec) -> Dec {
    Dec { mantissa: (-d.mantissa) as i128, scale: d.scale }
}

/// `-d` inside an option.
pub open spec fn neg_opt(o: Option<Dec>) -> Option<Dec> {
    match o {
        Some(d) => Some(spec_neg(d)),
        None => None,
    }
}

/// `v` units of `10^-28` are a whole number of steps of scale `s` and that
/// number of steps fits in 96 bits.
pub open spec fn fits_at(v: int, s: u32) -> bool {
    &&& s <= MAX_SCALE
    &&& v % pow10((MAX_SCALE - s) as nat) == 0
    &&& -MAX_MANTISSA <= v / pow10((MAX_SCALE - s) as nat) <= MAX_MANTISSA
}

/// The larger of two scales.
pub open spec fn max_scale(a: Dec, b: Dec) -> u32 {
    if a.scale < b.scale { b.scale } else { a.scale }
}

/// The largest decimal, `Decimal::MAX`.
pub open spec fn spec_max_value() -> Dec {
    Dec { mantissa: MAX_MANTISSA, scale: 0 }
}

pub fn zero() -> (d: Dec)
    ensures
        d == spec_zero(),
        d.wf(),
{
    Dec { mantissa: 0, scale: 0 }
}

pub fn one() -> (d: Dec)
    ensures
        d == spec_one(),
        d.wf(),
{
    Dec { mantissa: 1, scale: 0 }
}

pub fn whole(n: i64) -> (d: Dec)
    ensures
        d == spec_int(n as int),
        d.wf(),
{
    Dec { mantissa: n as i128, scale: 0 }
}

pub fn max_value() -> (d: Dec)
    ensures
        d == spec_max_value(),
        d.wf(),
{
    Dec { mantissa: MAX_MANTISSA, scale: 0 }
}

/// `a < b` as numbers.
pub open spec fn lt(a: Dec, b: Dec) -> bool {
    a.units() < b.units()
}

/// `a <= b` as numbers.
pub open spec fn le(a: Dec, b: Dec) -> bool {
    a.units() <= b.units()
}

/// `a == b` as numbers (`1.0` equals `1.00`).
pub open spec fn same(a: Dec, b: Dec) -> bool {
    a.units() == b.units()
}

/// The number is zero.
pub open spec fn is_zero(a: Dec) -> bool {
    a.units() == 0
}

/// `Decimal::max`: `b` when `a < b`, else `a`.
pub open spec fn spec_max(a: Dec, b: Dec) -> Dec {
    if lt(a, b) {
        b
    } else {
        a
    }
}

/// `Decimal::min`: `b` when `a > b`, else `a`.
pub open spec fn spec_min(a: Dec, b: Dec) -> Dec {
    if lt(b, a) {
        b
    } else {
        a
    }
}

/// What `checked_add` returns for `a` and `b`: the sum, or nothing on overflow.
pub uninterp spec fn decimal_add(a: Dec, b: Dec) -> Option<Dec>;

/// What `checked_sub` returns for `a` and `b`.
pub uninterp spec fn decimal_sub(a: Dec, b: Dec) -> Option<Dec>;

/// What `checked_mul` returns for `a` and `b`.
pub uninterp spec fn decimal_mul(a: Dec, b: Dec) -> Option<Dec>;

/// What `checked_div` returns for `a` and `b`.
pub uninterp spec fn decimal_div(a: Dec, b: Dec) -> Option<Dec>;

/// What `round_dp` (banker's rounding to `dp` places) returns.
pub uninterp spec fn decimal_round_dp(a: Dec, dp: u32) -> Dec;

/// The text that `Display` gives for a decimal.
pub uninterp spec fn decimal_display(a: Dec) -> Seq<char>;

/// What `from_str_exact` returns for a text: the decimal, or the error's text.
pub uninterp spec fn decimal_from_str_exact(s: Seq<char>) -> Result<Dec, Seq<char>>;

#[verifier::external_body]
fn to_decimal(a: Dec) -> (r: Decimal)
    requires
        a.wf(),
{
    Decimal::from_i128_with_scale(a.mantissa, a.scale)
}

#[verifier::external_body]
fn from_decimal(d: Decimal) -> (r: Dec)
    ensures
        r.wf(),
{
    Dec { mantissa: d.mantissa(), scale: d.scale() }
}

/// `Decimal::checked_add`; the result, when there is one, is a valid decimal.
/// At one scale, a sum of mantissas that fits in 96 bits is kept exactly; two
/// values of one sign whose sum fits at the larger scale are added without
/// rounding (each aligned operand is then no larger than the sum).
#[verifier::external_body]
pub(crate) fn checked_add(a: Dec, b: Dec) -> (r: Option<Dec>)
    requires
        a.wf(),
        b.wf(),
    ensures
        r == decimal_add(a, b),
        r matches Some(x) ==> x.wf(),
        (a.scale == b.scale && -MAX_MANTISSA <= a.mantissa + b.mantissa <= MAX_MANTISSA) ==> r == Some(
            Dec { mantissa: (a.mantissa + b.mantissa) as i128, scale: a.scale },
        ),
        (a.mantissa >= 0 && b.mantissa >= 0 && fits_at(a.units() + b.units(), max_scale(a, b))) ==> r is Some
            && r.unwrap().units() == a.units() + b.units(),
{
    to_decimal(a).checked_add(to_decimal(b)).map(from_decimal)
}

/// `Decimal::checked_sub`; the result, when there is one, is a valid decimal.
/// Two equal values cancel: aligned to the larger scale their magnitudes are
/// equal, so the difference is a zero mantissa and never overflows. At one
/// scale, a difference of mantissas that fits in 96 bits is kept exactly.
/// A nonzero difference has the sign of `a - b` (rounding only ever shortens
/// a difference too large to keep exactly); when both operands and the
/// difference fit at the larger scale, the difference is exact.
/// `b - a` is `-(a - b)`: the magnitude is computed and rounded the same way
/// for both orders and only the sign differs (two zero operands give the second
/// one back, so only when one of them is nonzero do both orders share a scale).
#[verifier::external_body]
pub(crate) fn checked_sub(a: Dec, b: Dec) -> (r: Option<Dec>)
    requires
        a.wf(),
        b.wf(),
    ensures
        r == decimal_sub(a, b),
        r matches Some(x) ==> x.wf(),
        a.units() == b.units() ==> r is Some && r.unwrap().mantissa == 0,
        (a.scale == b.scale && -MAX_MANTISSA <= a.mantissa - b.mantissa <= MAX_MANTISSA) ==> r == Some(
            Dec { mantissa: (a.mantissa - b.mantissa) as i128, scale: a.scale },
        ),
        r matches Some(x) ==> (x.mantissa > 0 ==> a.units() > b.units()) && (x.mantissa < 0 ==> a.units()
            < b.units()),
        (fits_at(a.units(), max_scale(a, b)) && fits_at(b.units(), max_scale(a, b)) && fits_at(
            a.units() - b.units(),
            max_scale(a, b),
        )) ==> r is Some && r.unwrap().units() == a.units() - b.units(),
        decimal_sub(b, a) is Some == r is Some,
        r is Some ==> decimal_sub(b, a).unwrap().mantissa == -r.unwrap().mantissa,
        r is Some && (a.mantissa != 0 || b.mantissa != 0) ==> decimal_sub(b, a).unwrap().scale == r.unwrap().scale,
{
    to_decimal(a).checked_sub(to_decimal(b)).map(from_decimal)
}

/// `Decimal::checked_mul`; the result, when there is one, is a valid decimal.
/// A zero factor gives `Decimal::ZERO`; otherwise, when the product of the
/// mantissas fits in 96 bits and the scales add up to at most 28, the
/// product is kept exactly at the summed scale. The sign of the product is
/// the exclusive or of the signs, apart from the magnitude, so negating a
/// factor negates the product.
#[verifier::external_body]
pub(crate) fn checked_mul(a: Dec, b: Dec) -> (r: Option<Dec>)
    requires
        a.wf(),
        b.wf(),
    ensures
        (a.mantissa == 0 || b.mantissa == 0) ==> r == Some(spec_zero()),
        (a.mantissa != 0 && b.mantissa != 0 && a.scale + b.scale <= MAX_SCALE
            && -MAX_MANTISSA <= a.mantissa * b.mantissa <= MAX_MANTISSA) ==> r == Some(
            Dec { mantissa: (a.mantissa * b.mantissa) as i128, scale: (a.scale + b.scale) as u32 },
        ),
        decimal_mul(spec_neg(a), b) == neg_opt(r),
        r matches Some(x) ==> (x.mantissa > 0 ==> (a.mantissa > 0) == (b.mantissa > 0)) && (x.mantissa < 0
            ==> (a.mantissa > 0) != (b.mantissa > 0)),
        r == decimal_mul(a, b),
        r matches Some(x) ==> x.wf(),
{
    to_decimal(a).checked_mul(to_decimal(b)).map(from_decimal)
}

/// `Decimal::checked_div`; it gives nothing for a zero divisor, and the result,
/// when there is one, is a valid decimal. A zero dividend gives `Decimal::ZERO`;
/// a quotient's sign is the exclusive or of the signs, apart from its magnitude;
/// dividing a nonzero value by 1 gives it back.
#[verifier::external_body]
pub(crate) fn checked_div(a: Dec, b: Dec) -> (r: Option<Dec>)
    requires
        a.wf(),
        b.wf(),
    ensures
        r == decimal_div(a, b),
        is_zero(b) ==> r is None,
        r matches Some(x) ==> x.wf(),
        (0 <= a.units() <= b.units() && 0 < b.units()) ==> r is Some && 0 <= r.unwrap().units()
            <= spec_one().units(),
        (a.mantissa == 0 && b.mantissa != 0) ==> r == Some(spec_zero()),
        (b == spec_one() && a.mantissa != 0) ==> r == Some(a),
        r matches Some(x) ==> (x.mantissa > 0 ==> (a.mantissa > 0) == (b.mantissa > 0)) && (x.mantissa < 0
            ==> (a.mantissa > 0) != (b.mantissa > 0)),
{
    to_decimal(a).checked_div(to_decimal(b)).map(from_decimal)
}

/// `Decimal::round_dp`; a value with no more than `dp` places comes back unchanged,
/// and a zero stays zero.
#[verifier::external_body]
pub(crate) fn round_dp(a: Dec, dp: u32) -> (r: Dec)
    requires
        a.wf(),
    ensures
        r == decimal_round_dp(a, dp),
        a.scale <= dp ==> r == a,
        a.mantissa == 0 ==> r.mantissa == 0,
        r.wf(),
{
    from_decimal(to_decimal(a).round_dp(dp))
}

/// Unary minus on a `Decimal`: the sign flips, the digits and scale stay.
#[verifier::external_body]
pub(crate) fn neg(a: Dec) -> (r: Dec)
    requires
        a.wf(),
    ensures
        r.mantissa == -a.mantissa,
        r.scale == a.scale,
        r.wf(),
{
    from_decimal(-to_decimal(a))
}

/// `Decimal::abs`: the sign is dropped, the digits and scale stay.
#[verifier::external_body]
pub(crate) fn abs(a: Dec) -> (r: Dec)
    requires
        a.wf(),
    ensures
        r.mantissa == if a.mantissa < 0 { -a.mantissa } else { a.mantissa as int },
        r.scale == a.scale,
        r.wf(),
{
    from_decimal(to_decimal(a).abs())
}

/// `a < b` on `Decimal`, which compares the numbers.
#[verifier::external_body]
pub(crate) fn less(a: Dec, b: Dec) -> (r: bool)
    requires
        a.wf(),
        b.wf(),
    ensures
        r == lt(a, b),
{
    to_decimal(a) < to_decimal(b)
}

/// `a == b` on `Decimal`, which compares the numbers.
#[verifier::external_body]
pub(crate) fn equal(a: Dec, b: Dec) -> (r: bool)
    requires
        a.wf(),
        b.wf(),
    ensures
        r == same(a, b),
{
    to_decimal(a) == to_decimal(b)
}

/// `Decimal::max`: `other` when `self < other`, else `self`.
#[verifier::external_body]
pub(crate) fn max(a: Dec, b: Dec) -> (r: Dec)
    requires
        a.wf(),
        b.wf(),
    ensures
        r == spec_max(a, b),
{
    from_decimal(to_decimal(a).max(to_decimal(b)))
}

/// `Decimal::min`: `other` when `self > other`, else `self`.
#[verifier::external_body]
pub(crate) fn min(a: Dec, b: Dec) -> (r: Dec)
    requires
        a.wf(),
        b.wf(),
    ensures
        r == spec_min(a, b),
{
    from_decimal(to_decimal(a).min(to_decimal(b)))
}

/// `Decimal`'s `Display` text.
#[verifier::external_body]
pub(crate) fn display(a: Dec) -> (r: String)
    requires
        a.wf(),
    ensures
        r@ == decimal_display(a),
{
    to_decimal(a).to_string()
}

/// What `Decimal`'s `Display` gives with a precision of `prec` places.
pub uninterp spec fn decimal_display_prec(a: Dec, prec: usize) -> Seq<char>;

/// `Decimal`'s `Display` text with a precision, as `format!("{:.1}", d)` writes it.
/// The formatter writes the whole digits (up to 29), a point and the fraction
/// into a buffer of 32 characters and panics past it, so the precision is
/// kept to at most two places, which always fits.
#[verifier::external_body]
pub(crate) fn display_prec(a: Dec, prec: usize) -> (r: String)
    requires
        a.wf(),
        prec <= 2,
    ensures
        r@ == decimal_display_prec(a, prec),
{
    format!("{:.*}", prec, to_decimal(a))
}

/// `Decimal::from_str_exact`: the decimal a text spells, or the error's text.
#[verifier::external_body]
pub(crate) fn from_str_exact(s: &str) -> (r: Result<Dec, String>)
    ensures
        match r {
            Ok(d) => decimal_from_str_exact(s@) == Ok::<Dec, Seq<char>>(d) && d.wf(),
            Err(m) => decimal_from_str_exact(s@) == Err::<Dec, Seq<char>>(m@),
        },
{
    match Decimal::from_str_exact(s) {
        Ok(d) => Ok(from_decimal(d)),
        Err(e) => Err(e.to_string()),
    }
}

/// `a <= b` as numbers.
pub fn less_eq(a: Dec, b: Dec) -> (r: bool)
    requires
        a.wf(),
        b.wf(),
    ensures
        r == le(a, b),
{
    !less(b, a)
}

/// The number is zero.
pub fn is_zero_dec(a: Dec) -> (r: bool)
    requires
        a.wf(),
    ensures
        r == is_zero(a),
{
    proof {
        lemma_pow10_positive((MAX_SCALE - a.scale) as nat);
        assert(a.units() == 0 <==> a.mantissa == 0) by (nonlinear_arith)
            requires
                pow10((MAX_SCALE - a.scale) as nat) > 0,
                a.units() == a.mantissa * pow10((MAX_SCALE - a.scale) as nat),
        ;
    }
    a.mantissa == 0
}

} // verus!

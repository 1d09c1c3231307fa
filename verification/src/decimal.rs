//! Decimal numbers as plain values, and the calls into `rust_decimal` that
//! parse, print and compute them.
//!
//! A `rust_decimal::Decimal` is a sign, a 96-bit mantissa and a scale from
//! 0 to 28; its value is `(-1)^sign * mantissa / 10^scale`. `DecimalValue`
//! holds those three parts, so that contracts can speak of them. The sign is
//! kept apart from the mantissa because a `Decimal` can be a negative zero,
//! which prints as `-0`.

use vstd::prelude::*;

use crate::numeral::{
    digit_count, digits_value, fraction_len, is_numeral, lemma_numeral_bounds, lemma_pow10_28,
    lemma_pow10_monotone, lemma_render_magnitude, pow10, render_magnitude,
};

verus! {

/// One more than the largest mantissa a `rust_decimal::Decimal` can hold.
pub const MANTISSA_LIMIT: u128 = 0x1_0000_0000_0000_0000_0000_0000u128;

/// The largest scale a `rust_decimal::Decimal` can hold.
pub const MAX_SCALE: u32 = 28;

/// The parts of a `rust_decimal::Decimal`.
#[derive(Debug, Clone, Copy, PartialEq, Eq, Structural)]
pub struct DecimalValue {
    pub negative: bool,
    pub mantissa: u128,
    pub scale: u32,
}

impl DecimalValue {
    /// The parts fit a `rust_decimal::Decimal`.
    pub open spec fn wf(self) -> bool {
        self.mantissa < MANTISSA_LIMIT && self.scale <= MAX_SCALE
    }

    pub open spec fn spec_zero() -> DecimalValue {
        DecimalValue { negative: false, mantissa: 0, scale: 0 }
    }

    /// What `Neg` gives: the sign flips, also for a zero.
    pub open spec fn spec_neg(self) -> DecimalValue {
        DecimalValue { negative: !self.negative, ..self }
    }

    /// What `Decimal::abs` gives: the sign is cleared.
    pub open spec fn spec_abs(self) -> DecimalValue {
        DecimalValue { negative: false, ..self }
    }

    /// What `Decimal::normalize` gives: trailing zeros of the fraction are
    /// dropped, and every zero becomes a positive zero of scale 0.
    pub open spec fn spec_normalize(self) -> DecimalValue {
        if self.mantissa == 0 {
            DecimalValue::spec_zero()
        } else {
            let (m, s) = strip_zeros(self.mantissa as nat, self.scale as nat);
            DecimalValue { negative: self.negative, mantissa: m as u128, scale: s as u32 }
        }
    }

    /// `Decimal::ZERO`.
    pub fn zero() -> (d: DecimalValue)
        ensures
            d == DecimalValue::spec_zero(),
            d.wf(),
    {
        DecimalValue { negative: false, mantissa: 0, scale: 0 }
    }

    /// Whether the value is zero, that is `== Decimal::ZERO`: a zero of any
    /// sign and scale compares equal to it.
    pub fn is_zero(&self) -> (b: bool)
        ensures
            b == (self.mantissa == 0),
    {
        self.mantissa == 0
    }

    pub fn is_sign_negative(&self) -> (b: bool)
        ensures
            b == self.negative,
    {
        self.negative
    }

    pub fn neg(&self) -> (d: DecimalValue)
        ensures
            d == self.spec_neg(),
            self.wf() ==> d.wf(),
    {
        DecimalValue { negative: !self.negative, mantissa: self.mantissa, scale: self.scale }
    }

    pub fn abs(&self) -> (d: DecimalValue)
        ensures
            d == self.spec_abs(),
            self.wf() ==> d.wf(),
    {
        DecimalValue { negative: false, mantissa: self.mantissa, scale: self.scale }
    }

    pub fn normalize(&self) -> (d: DecimalValue)
        requires
            self.wf(),
        ensures
            d == self.spec_normalize(),
            d.wf(),
            d.mantissa as nat * pow10(self.scale as nat) == self.mantissa as nat * pow10(d.scale as nat),
    {
        if self.mantissa == 0 {
            return DecimalValue::zero();
        }
        let mut m = self.mantissa;
        let mut s = self.scale;
        while s > 0 && m % 10 == 0
            invariant
                s <= self.scale,
                m <= self.mantissa,
                m > 0,
                strip_zeros(m as nat, s as nat) == strip_zeros(self.mantissa as nat, self.scale as nat),
                m as nat * pow10(self.scale as nat) == self.mantissa as nat * pow10(s as nat),
            decreases s,
        {
            proof {
                lemma_strip_step(m as nat, s as nat);
                lemma_drop_ten(m as nat, s as nat, self.mantissa as nat, self.scale as nat);
            }
            m = m / 10;
            s = s - 1;
        }
        DecimalValue { negative: self.negative, mantissa: m, scale: s }
    }
}

/// Drops trailing zeros of `m` while the scale allows.
pub open spec fn strip_zeros(m: nat, s: nat) -> (nat, nat)
    decreases s,
{
    if s > 0 && m % 10 == 0 {
        strip_zeros(m / 10, (s - 1) as nat)
    } else {
        (m, s)
    }
}

proof fn lemma_strip_step(m: nat, s: nat)
    requires
        s > 0,
        m % 10 == 0,
    ensures
        strip_zeros(m, s) == strip_zeros(m / 10, (s - 1) as nat),
{
}

proof fn lemma_drop_ten(m: nat, s: nat, m0: nat, s0: nat)
    requires
        s > 0,
        m % 10 == 0,
        m * pow10(s0) == m0 * pow10(s),
    ensures
        (m / 10) * pow10(s0) == m0 * pow10((s - 1) as nat),
{
    let p = pow10((s - 1) as nat);
    assert(pow10(s) == 10 * p);
    let q = m / 10;
    assert(m == 10 * q);
    assert(10 * q * pow10(s0) == m0 * (10 * p));
    assert(q * pow10(s0) == m0 * p) by (nonlinear_arith)
        requires
            10 * q * pow10(s0) == m0 * (10 * p),
    ;
}

/// What `format!("{}", d)` writes for a `rust_decimal::Decimal`: a `-` for
/// a negative sign, then the magnitude with exactly `scale` digits after the
/// point.
pub open spec fn render_decimal(d: DecimalValue) -> Seq<char> {
    (if d.negative {
        seq!['-']
    } else {
        Seq::empty()
    }) + render_magnitude(d.mantissa as nat, d.scale as nat)
}

/// The decimal `100`, as `Decimal::from(100)` makes it.
pub open spec fn hundred() -> DecimalValue {
    DecimalValue { negative: false, mantissa: 100, scale: 0 }
}

/// The larger of the two scales: the scale a sum or difference is written at.
pub open spec fn common_scale(a: DecimalValue, b: DecimalValue) -> nat {
    if a.scale >= b.scale {
        a.scale as nat
    } else {
        b.scale as nat
    }
}

/// `d` as a signed integer count of `10^-s`, for `s` at least its scale.
pub open spec fn scaled_value(d: DecimalValue, s: nat) -> int {
    let m = d.mantissa as int * pow10((s - d.scale) as nat) as int;
    if d.negative {
        -m
    } else {
        m
    }
}

pub open spec fn int_abs(x: int) -> nat {
    if x < 0 {
        (-x) as nat
    } else {
        x as nat
    }
}

/// The decimal that writes the count `x` of `10^-s`.
pub open spec fn exact_decimal(x: int, s: nat) -> DecimalValue {
    DecimalValue { negative: x < 0, mantissa: int_abs(x) as u128, scale: s as u32 }
}

/// Two non-zero operands below 2^64 whose scales are at most 19 apart: the
/// case that `add_sub_internal` computes exactly in 128 bits.
pub open spec fn small_operands(a: DecimalValue, b: DecimalValue) -> bool {
    &&& a.mantissa != 0
    &&& b.mantissa != 0
    &&& a.mantissa < 0x1_0000_0000_0000_0000
    &&& b.mantissa < 0x1_0000_0000_0000_0000
    &&& common_scale(a, b) - a.scale <= 19
    &&& common_scale(a, b) - b.scale <= 19
}

/// The exact sum of `a` and `b`, counted at their common scale.
pub open spec fn exact_sum(a: DecimalValue, b: DecimalValue) -> int {
    scaled_value(a, common_scale(a, b)) + scaled_value(b, common_scale(a, b))
}

/// The exact difference `a - b`, counted at their common scale.
pub open spec fn exact_difference(a: DecimalValue, b: DecimalValue) -> int {
    scaled_value(a, common_scale(a, b)) - scaled_value(b, common_scale(a, b))
}

/// The exact product of two non-zero decimals: the mantissas multiplied,
/// the scales added, negative where the signs differ.
pub open spec fn exact_product(a: DecimalValue, b: DecimalValue) -> DecimalValue {
    DecimalValue {
        negative: a.negative != b.negative,
        mantissa: (a.mantissa * b.mantissa) as u128,
        scale: (a.scale + b.scale) as u32,
    }
}

/// The product is written exactly: it fits the mantissa and the scale.
pub open spec fn product_fits(a: DecimalValue, b: DecimalValue) -> bool {
    a.mantissa * b.mantissa < MANTISSA_LIMIT && a.scale + b.scale <= MAX_SCALE
}

/// The exact quotient of a divisible dividend by a divisor below 2^32.
pub open spec fn exact_quotient(a: DecimalValue, b: DecimalValue) -> DecimalValue {
    DecimalValue {
        negative: a.negative != b.negative,
        mantissa: (a.mantissa / b.mantissa) as u128,
        scale: (a.scale - b.scale) as u32,
    }
}

/// `b` divides `a` with nothing left over and no scale to add: the fast path
/// of `div_impl` for a 32-bit divisor.
pub open spec fn quotient_exact(a: DecimalValue, b: DecimalValue) -> bool {
    &&& a.mantissa != 0
    &&& b.mantissa != 0
    &&& b.mantissa < 0x1_0000_0000
    &&& a.mantissa % b.mantissa == 0
    &&& a.scale >= b.scale
}

/// What `Decimal::from_str` returns for `text`, as parts, `None` for an
/// error.
pub uninterp spec fn decimal_from_str(text: Seq<char>) -> Option<DecimalValue>;

/// What `Decimal::checked_add` returns.
pub uninterp spec fn decimal_checked_add(a: DecimalValue, b: DecimalValue) -> Option<DecimalValue>;

/// What `Decimal::checked_sub` returns.
pub uninterp spec fn decimal_checked_sub(a: DecimalValue, b: DecimalValue) -> Option<DecimalValue>;

/// What `Decimal::checked_mul` returns.
pub uninterp spec fn decimal_checked_mul(a: DecimalValue, b: DecimalValue) -> Option<DecimalValue>;

/// What `Decimal::checked_div` returns.
pub uninterp spec fn decimal_checked_div(a: DecimalValue, b: DecimalValue) -> Option<DecimalValue>;

/// A numeral short enough to be read without rounding: its digits, point
/// ignored, fit the mantissa, and at most 28 of them follow the point.
pub open spec fn fits_decimal(s: Seq<char>) -> bool {
    &&& is_numeral(s)
    &&& digits_value(s) < MANTISSA_LIMIT
    &&& fraction_len(s) <= MAX_SCALE
}

/// A numeral with no digit after a point: `235` or `235.`.
pub open spec fn is_integer_numeral(s: Seq<char>) -> bool {
    is_numeral(s) && fraction_len(s) == 0
}

/// The exact reading of a numeral that fits.
pub open spec fn numeral_decimal(s: Seq<char>) -> DecimalValue {
    DecimalValue { negative: false, mantissa: digits_value(s) as u128, scale: fraction_len(s) as u32 }
}

/// `Decimal::from_str`, with the error dropped.
///
/// Trusted: the result is the one `decimal_from_str` names; every `Decimal`
/// it returns has parts that fit; and a numeral that fits (no `-`, no
/// exponent, mantissa below 2^96, at most 28 fraction digits) reads as its
/// digits over `10^fraction digits`, positive, as the digit-by-digit parser
/// in `rust_decimal`'s `str.rs` does before any rounding starts. An integer
/// numeral (digits, at most a trailing point) worth 2^96 or more is refused:
/// the parser is in its 128-bit stage by the digit that reaches 2^96, and
/// with no point seen yet it returns "overflow from too many digits"; the
/// text holds no `e`, so `from_str` tries no scientific reading. What it
/// returns on other text (signs, `_`, exponents, rounding of long
/// fractions) is left to the name.
#[verifier::external_body]
pub(crate) fn decimal_parse(text: &str) -> (r: Option<DecimalValue>)
    ensures
        r == decimal_from_str(text@),
        r matches Some(d) ==> d.wf(),
        fits_decimal(text@) ==> r == Some(numeral_decimal(text@)),
        is_integer_numeral(text@) && digits_value(text@) >= MANTISSA_LIMIT ==> r is None,
{
    match <rust_decimal::Decimal as core::str::FromStr>::from_str(text) {
        Ok(x) => Some(DecimalValue {
            negative: x.is_sign_negative(),
            mantissa: x.mantissa().unsigned_abs(),
            scale: x.scale(),
        }),
        Err(_) => None,
    }
}

/// `format!("{}", d)` for a `rust_decimal::Decimal`, as characters.
///
/// Trusted: the text is `render_decimal(d)`, which is what `Display` for
/// `Decimal` does without a precision: `to_str_internal` writes the mantissa's
/// digits, pads them with zeros to `scale` digits, puts the point before the
/// last `scale` of them (with a `0` in front where nothing is left), and
/// `pad_integral` puts a `-` in front for a negative sign bit.
#[verifier::external_body]
pub(crate) fn decimal_to_chars(d: &DecimalValue) -> (r: Vec<char>)
    requires
        d.wf(),
    ensures
        r@ == render_decimal(*d),
{
    let mut x = rust_decimal::Decimal::from_i128_with_scale(d.mantissa as i128, d.scale);
    x.set_sign_negative(d.negative);
    format!("{}", x).chars().collect()
}

/// `Decimal::checked_add`.
///
/// Trusted: the result is the one `decimal_checked_add` names, and the parts
/// of a `Decimal` fit. From `add_sub_internal` (`ops/add.rs`): a zero
/// left operand gives the right one unchanged, a zero right operand the left
/// one; and two non-zero operands below 2^64 at most 19 scales apart are
/// aligned to the larger scale and added in 128 bits, so an exact sum below
/// 2^96 comes back exactly, at that scale, negative only where it is below
/// zero (`from_parts` and `from_parts_raw` clear the sign of a zero).
#[verifier::external_body]
pub(crate) fn checked_add(a: &DecimalValue, b: &DecimalValue) -> (r: Option<DecimalValue>)
    requires
        a.wf(),
        b.wf(),
    ensures
        r == decimal_checked_add(*a, *b),
        r matches Some(d) ==> d.wf(),
        a.mantissa == 0 ==> r == Some(*b),
        a.mantissa != 0 && b.mantissa == 0 ==> r == Some(*a),
        small_operands(*a, *b) && int_abs(exact_sum(*a, *b)) < MANTISSA_LIMIT ==> r == Some(
            exact_decimal(exact_sum(*a, *b), common_scale(*a, *b)),
        ),
{
    let mut x = rust_decimal::Decimal::from_i128_with_scale(a.mantissa as i128, a.scale);
    x.set_sign_negative(a.negative);
    let mut y = rust_decimal::Decimal::from_i128_with_scale(b.mantissa as i128, b.scale);
    y.set_sign_negative(b.negative);
    match x.checked_add(y) {
        Some(z) => Some(DecimalValue {
            negative: z.is_sign_negative(),
            mantissa: z.mantissa().unsigned_abs(),
            scale: z.scale(),
        }),
        None => None,
    }
}

/// `Decimal::checked_sub`.
///
/// Trusted: the result is the one `decimal_checked_sub` names, and the parts
/// of a `Decimal` fit. From `add_sub_internal` (`ops/add.rs`): `0 - b` is
/// `b` with its sign flipped (unchanged where `b` is zero), `a - 0` is `a`;
/// and for two non-zero operands below 2^64 at most 19 scales apart, an exact
/// difference below 2^96 comes back exactly, at the larger scale, negative
/// only where it is below zero.
#[verifier::external_body]
pub(crate) fn checked_sub(a: &DecimalValue, b: &DecimalValue) -> (r: Option<DecimalValue>)
    requires
        a.wf(),
        b.wf(),
    ensures
        r == decimal_checked_sub(*a, *b),
        r matches Some(d) ==> d.wf(),
        a.mantissa == 0 && b.mantissa != 0 ==> r == Some(b.spec_neg()),
        a.mantissa == 0 && b.mantissa == 0 ==> r == Some(*b),
        a.mantissa != 0 && b.mantissa == 0 ==> r == Some(*a),
        small_operands(*a, *b) && int_abs(exact_difference(*a, *b)) < MANTISSA_LIMIT ==> r == Some(
            exact_decimal(exact_difference(*a, *b), common_scale(*a, *b)),
        ),
{
    let mut x = rust_decimal::Decimal::from_i128_with_scale(a.mantissa as i128, a.scale);
    x.set_sign_negative(a.negative);
    let mut y = rust_decimal::Decimal::from_i128_with_scale(b.mantissa as i128, b.scale);
    y.set_sign_negative(b.negative);
    match x.checked_sub(y) {
        Some(z) => Some(DecimalValue {
            negative: z.is_sign_negative(),
            mantissa: z.mantissa().unsigned_abs(),
            scale: z.scale(),
        }),
        None => None,
    }
}

/// `Decimal::checked_mul`.
///
/// Trusted: the result is the one `decimal_checked_mul` names, and the parts
/// of a `Decimal` fit. From `mul_impl` (`ops/mul.rs`): a zero operand gives
/// `Decimal::ZERO`; the sign of a non-zero result is the exclusive or of the
/// operands' signs; and a product below 2^96 with scales adding up to at
/// most 28 is not rescaled, so it comes back exactly.
#[verifier::external_body]
pub(crate) fn checked_mul(a: &DecimalValue, b: &DecimalValue) -> (r: Option<DecimalValue>)
    requires
        a.wf(),
        b.wf(),
    ensures
        r == decimal_checked_mul(*a, *b),
        r matches Some(d) ==> d.wf(),
        a.mantissa == 0 || b.mantissa == 0 ==> r == Some(DecimalValue::spec_zero()),
        r matches Some(d) ==> (d.mantissa != 0 ==> d.negative == (a.negative != b.negative)),
        a.mantissa != 0 && b.mantissa != 0 && product_fits(*a, *b) ==> r == Some(
            exact_product(*a, *b),
        ),
{
    let mut x = rust_decimal::Decimal::from_i128_with_scale(a.mantissa as i128, a.scale);
    x.set_sign_negative(a.negative);
    let mut y = rust_decimal::Decimal::from_i128_with_scale(b.mantissa as i128, b.scale);
    y.set_sign_negative(b.negative);
    match x.checked_mul(y) {
        Some(z) => Some(DecimalValue {
            negative: z.is_sign_negative(),
            mantissa: z.mantissa().unsigned_abs(),
            scale: z.scale(),
        }),
        None => None,
    }
}

/// `Decimal::checked_div`.
///
/// Trusted: the result is the one `decimal_checked_div` names, the parts of
/// a `Decimal` fit, and a division by `100` always succeeds. `div_impl`
/// gives `Decimal::ZERO` for a zero dividend and a non-zero divisor, and
/// writes every quotient with the exclusive or of the signs (cleared for a
/// zero); a 32-bit divisor that leaves no remainder at a scale that is not
/// negative gives the quotient of the mantissas at the difference of the
/// scales, not rescaled. In `div_impl`
/// (`ops/div.rs`) a 32-bit divisor of scale 0 leaves the quotient's scale at
/// the dividend's, never below 0, and every `Overflow` exit of
/// `div_remainder_32` (`find_scale` giving `None`, `unscale_from_overflow`)
/// needs a negative scale; a first quotient below `2^96 / 100` is always
/// scaled up at least once before it can reach the top, so rounding can step
/// the scale back down without going below 0.
#[verifier::external_body]
pub(crate) fn checked_div(a: &DecimalValue, b: &DecimalValue) -> (r: Option<DecimalValue>)
    requires
        a.wf(),
        b.wf(),
    ensures
        r == decimal_checked_div(*a, *b),
        r matches Some(d) ==> d.wf(),
        *b == hundred() ==> r is Some,
        a.mantissa == 0 && b.mantissa != 0 ==> r == Some(DecimalValue::spec_zero()),
        r matches Some(d) ==> (d.mantissa != 0 ==> d.negative == (a.negative != b.negative)),
        quotient_exact(*a, *b) ==> r == Some(exact_quotient(*a, *b)),
{
    let mut x = rust_decimal::Decimal::from_i128_with_scale(a.mantissa as i128, a.scale);
    x.set_sign_negative(a.negative);
    let mut y = rust_decimal::Decimal::from_i128_with_scale(b.mantissa as i128, b.scale);
    y.set_sign_negative(b.negative);
    match x.checked_div(y) {
        Some(z) => Some(DecimalValue {
            negative: z.is_sign_negative(),
            mantissa: z.mantissa().unsigned_abs(),
            scale: z.scale(),
        }),
        None => None,
    }
}

/// A numeral of at most 28 digits fits a `Decimal`.
pub proof fn lemma_short_numeral_fits(s: Seq<char>)
    requires
        is_numeral(s),
        digit_count(s) <= 28,
    ensures
        fits_decimal(s),
{
    lemma_numeral_bounds(s);
    lemma_pow10_monotone(digit_count(s), 28);
    lemma_pow10_28();
}

/// What `format!` writes for a non-negative decimal fits, and reads back as
/// the same parts.
pub proof fn lemma_render_fits(d: DecimalValue)
    requires
        d.wf(),
    ensures
        fits_decimal(render_magnitude(d.mantissa as nat, d.scale as nat)),
        numeral_decimal(render_magnitude(d.mantissa as nat, d.scale as nat)) == d.spec_abs(),
{
    lemma_render_magnitude(d.mantissa as nat, d.scale as nat);
}

/// Two decimals are the same number: equal values, and equal signs unless
/// they are zero.
pub open spec fn same_number(a: DecimalValue, b: DecimalValue) -> bool {
    &&& a.mantissa as nat * pow10(b.scale as nat) == b.mantissa as nat * pow10(a.scale as nat)
    &&& (a.mantissa != 0 ==> a.negative == b.negative)
}

proof fn lemma_strip_zeros(m: nat, s: nat)
    ensures
        strip_zeros(m, s).0 * pow10(s) == m * pow10(strip_zeros(m, s).1),
        strip_zeros(m, s).1 <= s,
        strip_zeros(m, s).0 <= m,
        m != 0 ==> strip_zeros(m, s).0 != 0,
    decreases s,
{
    if s > 0 && m % 10 == 0 {
        let (m2, s2) = strip_zeros(m / 10, (s - 1) as nat);
        lemma_strip_zeros(m / 10, (s - 1) as nat);
        let p = pow10((s - 1) as nat);
        assert(pow10(s) == 10 * p);
        let q = m / 10;
        assert(m == 10 * q);
        assert(m2 * (10 * p) == (10 * q) * pow10(s2)) by (nonlinear_arith)
            requires
                m2 * p == q * pow10(s2),
        ;
    }
}

pub proof fn lemma_normalize_wf(d: DecimalValue)
    requires
        d.wf(),
    ensures
        d.spec_normalize().wf(),
{
    lemma_strip_zeros(d.mantissa as nat, d.scale as nat);
}

/// A decimal, with its sign kept, is the same number as its normalized
/// magnitude.
pub proof fn lemma_normalize_same_number(d: DecimalValue)
    requires
        d.wf(),
    ensures
        same_number(signed(d.spec_abs().spec_normalize(), d.negative), d),
{
    lemma_strip_zeros(d.mantissa as nat, d.scale as nat);
    let a = d.spec_abs().spec_normalize();
    if d.mantissa == 0 {
        assert(0 * pow10(d.scale as nat) == 0);
        assert(d.mantissa as nat * pow10(0) == 0);
    }
}

/// A non-negative decimal given a sign as `to_decimal` does: negated where
/// `negative`.
pub open spec fn signed(v: DecimalValue, negative: bool) -> DecimalValue {
    if negative {
        v.spec_neg()
    } else {
        v
    }
}

/// Whether the contracts fix what `Decimal::from_str` reads for `s`: they
/// do for a numeral that fits and for an integer numeral.
pub open spec fn reading_stated(s: Seq<char>) -> bool {
    fits_decimal(s) || is_integer_numeral(s)
}

/// What `Decimal::from_str` reads for a text whose reading is stated.
pub open spec fn stated_reading(s: Seq<char>) -> Option<DecimalValue> {
    if fits_decimal(s) {
        Some(numeral_decimal(s))
    } else {
        None
    }
}

} // verus!

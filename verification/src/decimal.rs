//! Fixed-point amounts.
//!
//! An [`Amount`] is a decimal number `mantissa / 10^scale` with a 96-bit
//! mantissa and at most 28 fractional digits. The arithmetic itself is done
//! by `rust_decimal`; this module states what that arithmetic returns.

use crate::text::decimal_digits;
use crate::text::digit_char;
use rust_decimal::Decimal;
use rust_decimal::RoundingStrategy;
use vstd::prelude::*;

verus! {

/// The largest magnitude of a mantissa, `2^96 - 1`.
pub const MAX_MANTISSA: i128 = 79_228_162_514_264_337_593_543_950_335;

/// The largest number of fractional digits.
pub const MAX_SCALE: u32 = 28;

/// `10^n`.
pub open spec fn pow10(n: nat) -> int
    decreases n,
{
    if n == 0 {
        1
    } else {
        10 * pow10((n - 1) as nat)
    }
}

/// Whether `m` can be the mantissa of an amount.
pub open spec fn fits(m: int) -> bool {
    -MAX_MANTISSA <= m <= MAX_MANTISSA
}

/// The mathematical content of an [`Amount`]: the number `mantissa / 10^scale`
/// together with the number of fractional digits it is written with.
pub struct DecimalValue {
    pub mantissa: int,
    pub scale: nat,
}

impl DecimalValue {
    /// Whether an [`Amount`] can hold this value.
    pub open spec fn valid(self) -> bool {
        fits(self.mantissa) && self.scale <= MAX_SCALE
    }

    /// The number itself, counted in units of `10^-28`. Two values denote the
    /// same number exactly when their units are equal.
    pub open spec fn units(self) -> int {
        self.mantissa * pow10((MAX_SCALE - self.scale) as nat)
    }

    /// The mantissa this number has when written with `scale` fractional
    /// digits, for a `scale` that is not below its own.
    pub open spec fn mantissa_at(self, scale: nat) -> int
        recommends
            self.scale <= scale,
    {
        self.mantissa * pow10((scale - self.scale) as nat)
    }

    /// Whether this number is at least `other`: whether its mantissa is at
    /// least that of `other` once both are written with the wider of the two
    /// scales.
    pub open spec fn at_least(self, other: DecimalValue) -> bool {
        self.mantissa_at(wider_scale(self, other)) >= other.mantissa_at(wider_scale(self, other))
    }

    /// The same digits with the opposite sign.
    pub open spec fn negated(self) -> DecimalValue {
        DecimalValue { mantissa: -self.mantissa, scale: self.scale }
    }

    /// The largest value an [`Amount`] can hold.
    pub open spec fn max() -> DecimalValue {
        DecimalValue { mantissa: MAX_MANTISSA as int, scale: 0 }
    }

    /// The smallest value an [`Amount`] can hold.
    pub open spec fn min() -> DecimalValue {
        DecimalValue { mantissa: -MAX_MANTISSA, scale: 0 }
    }

    /// Zero, written without fractional digits.
    pub open spec fn zero() -> DecimalValue {
        DecimalValue { mantissa: 0, scale: 0 }
    }
}

/// The larger of two scales.
pub open spec fn wider_scale(a: DecimalValue, b: DecimalValue) -> nat {
    if a.scale >= b.scale {
        a.scale
    } else {
        b.scale
    }
}

/// The sum `a + b` on the operands for which it is settled by a short rule:
///
/// * a zero operand leaves the other operand as it is written;
/// * otherwise, when both operands can be written with the wider of the two
///   scales and the sum of those mantissas fits, the sum is that mantissa at
///   that scale, with no rounding;
/// * when neither operand has fractional digits and the sum does not fit, the
///   result is clamped to the bound on the side of `a`.
///
/// On every other pair (the sum needs rounding to be held) it is `None`.
pub open spec fn settled_sum(a: DecimalValue, b: DecimalValue) -> Option<DecimalValue> {
    let scale = wider_scale(a, b);
    let x = a.mantissa_at(scale);
    let y = b.mantissa_at(scale);
    if a.mantissa == 0 {
        Some(b)
    } else if b.mantissa == 0 {
        Some(a)
    } else if fits(x) && fits(y) && fits(x + y) {
        Some(DecimalValue { mantissa: x + y, scale })
    } else if scale == 0 {
        Some(
            if a.mantissa > 0 {
                DecimalValue::max()
            } else {
                DecimalValue::min()
            },
        )
    } else {
        None
    }
}

/// What `rust_decimal` returns for the saturating sum of two decimals that
/// hold the given values.
pub uninterp spec fn decimal_saturating_add(a: DecimalValue, b: DecimalValue) -> DecimalValue;

/// What `rust_decimal` returns for the saturating difference of two decimals
/// that hold the given values.
pub uninterp spec fn decimal_saturating_sub(a: DecimalValue, b: DecimalValue) -> DecimalValue;

/// The last `width` decimal digits of `n`, with leading zeros where `n` has
/// fewer.
pub open spec fn padded_digits(n: nat, width: nat) -> Seq<char>
    decreases width,
{
    if width == 0 {
        Seq::empty()
    } else {
        padded_digits(n / 10, (width - 1) as nat).push(digit_char(n % 10))
    }
}

/// A value in decimal notation: a minus sign where it is negative, the
/// digits of its whole part, and, where it is written with fractional digits,
/// a point and all of them.
pub open spec fn decimal_text(value: DecimalValue) -> Seq<char> {
    let magnitude = if value.mantissa < 0 {
        -value.mantissa
    } else {
        value.mantissa
    };
    let unit = pow10(value.scale);
    let sign = if value.mantissa < 0 {
        seq!['-']
    } else {
        Seq::empty()
    };
    let whole = decimal_digits((magnitude / unit) as nat);
    if value.scale == 0 {
        sign + whole
    } else {
        sign + whole + seq!['.'] + padded_digits((magnitude % unit) as nat, value.scale)
    }
}

/// The saturating sum of two amounts.
pub open spec fn saturating_sum(a: DecimalValue, b: DecimalValue) -> DecimalValue {
    match settled_sum(a, b) {
        Some(sum) => sum,
        None => decimal_saturating_add(a, b),
    }
}

/// The saturating difference of two amounts. It is settled on the same
/// operands as the sum of `a` and the negation of `b`.
pub open spec fn saturating_difference(a: DecimalValue, b: DecimalValue) -> DecimalValue {
    match settled_sum(a, b.negated()) {
        Some(difference) => difference,
        None => decimal_saturating_sub(a, b),
    }
}

/// `value` rounded to `places` fractional digits, a tie going away from zero.
/// A value that has no more digits than that is left as it is written.
pub open spec fn rounded_half_away(value: DecimalValue, places: nat) -> DecimalValue {
    if value.scale <= places {
        value
    } else {
        let unit = pow10((value.scale - places) as nat);
        let magnitude = if value.mantissa < 0 {
            -value.mantissa
        } else {
            value.mantissa
        };
        let kept = magnitude / unit + if 2 * (magnitude % unit) >= unit {
            1int
        } else {
            0int
        };
        DecimalValue {
            mantissa: if value.mantissa < 0 {
                -kept
            } else {
                kept
            },
            scale: places,
        }
    }
}

/// Whether the sum of `a` and `b` is held without rounding or clamping: one of
/// them is zero, or both can be written with the wider of the two scales and
/// the sum of those mantissas fits.
pub open spec fn sum_is_exact(a: DecimalValue, b: DecimalValue) -> bool {
    let scale = wider_scale(a, b);
    let x = a.mantissa_at(scale);
    let y = b.mantissa_at(scale);
    a.mantissa == 0 || b.mantissa == 0 || (fits(x) && fits(y) && fits(x + y))
}

/// Whether the difference of `a` and `b` is held without rounding or clamping.
pub open spec fn difference_is_exact(a: DecimalValue, b: DecimalValue) -> bool {
    sum_is_exact(a, b.negated())
}

/// A power of ten is positive.
pub proof fn lemma_pow10_positive(n: nat)
    ensures
        pow10(n) > 0,
    decreases n,
{
    if n > 0 {
        lemma_pow10_positive((n - 1) as nat);
    }
}

/// Powers of ten multiply by adding their exponents.
pub proof fn lemma_pow10_add(a: nat, b: nat)
    ensures
        pow10(a + b) == pow10(a) * pow10(b),
    decreases a,
{
    if a > 0 {
        lemma_pow10_add((a - 1) as nat, b);
        assert(10 * (pow10((a - 1) as nat) * pow10(b)) == (10 * pow10((a - 1) as nat)) * pow10(b))
            by (nonlinear_arith);
    }
}

/// Writing a number with more fractional digits does not change the number.
pub proof fn lemma_units_at(value: DecimalValue, scale: nat)
    requires
        value.scale <= scale <= MAX_SCALE,
    ensures
        (DecimalValue { mantissa: value.mantissa_at(scale), scale }).units() == value.units(),
{
    let up = (scale - value.scale) as nat;
    let rest = (MAX_SCALE - scale) as nat;
    lemma_pow10_add(up, rest);
    assert((value.mantissa * pow10(up)) * pow10(rest) == value.mantissa * (pow10(up) * pow10(rest)))
        by (nonlinear_arith);
}

/// One value is at least another exactly when it is so counted in units.
pub proof fn lemma_order_in_units(a: DecimalValue, b: DecimalValue)
    requires
        a.valid(),
        b.valid(),
    ensures
        a.at_least(b) <==> a.units() >= b.units(),
{
    let scale = wider_scale(a, b);
    let x = a.mantissa_at(scale);
    let y = b.mantissa_at(scale);
    let rest = pow10((MAX_SCALE - scale) as nat);
    lemma_units_at(a, scale);
    lemma_units_at(b, scale);
    lemma_pow10_positive((MAX_SCALE - scale) as nat);
    assert(x >= y ==> x * rest >= y * rest) by (nonlinear_arith)
        requires
            rest > 0,
    ;
    assert(x < y ==> x * rest < y * rest) by (nonlinear_arith)
        requires
            rest > 0,
    ;
}

/// Where it is settled without clamping, the sum of two valid values is a
/// valid value and denotes the sum of the two numbers.
pub proof fn lemma_exact_sum(a: DecimalValue, b: DecimalValue)
    requires
        a.valid(),
        b.valid(),
        sum_is_exact(a, b),
    ensures
        saturating_sum(a, b).valid(),
        saturating_sum(a, b).units() == a.units() + b.units(),
{
    let scale = wider_scale(a, b);
    let x = a.mantissa_at(scale);
    let y = b.mantissa_at(scale);
    if a.mantissa == 0 || b.mantissa == 0 {
        assert(0 * pow10((MAX_SCALE - a.scale) as nat) == 0);
        assert(0 * pow10((MAX_SCALE - b.scale) as nat) == 0);
    } else {
        lemma_units_at(a, scale);
        lemma_units_at(b, scale);
        let rest = pow10((MAX_SCALE - scale) as nat);
        assert((x + y) * rest == x * rest + y * rest) by (nonlinear_arith);
    }
}

/// Where it is settled without clamping, the difference of two valid values
/// is a valid value and denotes the difference of the two numbers.
pub proof fn lemma_exact_difference(a: DecimalValue, b: DecimalValue)
    requires
        a.valid(),
        b.valid(),
        difference_is_exact(a, b),
    ensures
        saturating_difference(a, b).valid(),
        saturating_difference(a, b).units() == a.units() - b.units(),
{
    lemma_exact_sum(a, b.negated());
    assert(b.negated().units() == -b.units()) by (nonlinear_arith)
        requires
            b.negated().units() == (-b.mantissa) * pow10((MAX_SCALE - b.scale) as nat),
            b.units() == b.mantissa * pow10((MAX_SCALE - b.scale) as nat),
    ;
}

/// Whether `value` has no more than `places` fractional digits and, written
/// with that many, a mantissa of magnitude `bound` at most.
pub open spec fn moderate(value: DecimalValue, places: nat, bound: int) -> bool {
    value.scale <= places && -bound <= value.mantissa_at(places) <= bound
}

/// Writing a number with more fractional digits, and then with more again,
/// is writing it with the latter at once.
pub proof fn lemma_mantissa_at_twice(value: DecimalValue, scale: nat, places: nat)
    requires
        value.scale <= scale <= places,
    ensures
        value.mantissa_at(places) == value.mantissa_at(scale) * pow10((places - scale) as nat),
{
    let up = (scale - value.scale) as nat;
    let rest = (places - scale) as nat;
    lemma_pow10_add(up, rest);
    assert((value.mantissa * pow10(up)) * pow10(rest) == value.mantissa * (pow10(up) * pow10(rest)))
        by (nonlinear_arith);
}

/// Operands of moderate size add and subtract exactly: where both have no
/// more than `places` fractional digits and mantissas at that scale within
/// `bound`, and twice `bound` fits, their sum and their difference are held
/// without rounding or clamping, and are within twice the bound.
pub proof fn lemma_moderate_operands_are_exact(
    a: DecimalValue,
    b: DecimalValue,
    places: nat,
    bound: int,
)
    requires
        places <= MAX_SCALE,
        2 * bound <= MAX_MANTISSA,
        moderate(a, places, bound),
        moderate(b, places, bound),
    ensures
        sum_is_exact(a, b),
        difference_is_exact(a, b),
        moderate(saturating_sum(a, b), places, 2 * bound),
        moderate(saturating_difference(a, b), places, 2 * bound),
{
    let scale = wider_scale(a, b);
    let x = a.mantissa_at(scale);
    let y = b.mantissa_at(scale);
    let rest = pow10((places - scale) as nat);
    lemma_mantissa_at_twice(a, scale, places);
    lemma_mantissa_at_twice(b, scale, places);
    lemma_mantissa_at_twice(b.negated(), scale, places);
    lemma_pow10_positive((places - scale) as nat);
    assert(-bound <= x <= bound) by (nonlinear_arith)
        requires
            rest >= 1,
            -bound <= x * rest <= bound,
    ;
    assert(-bound <= y <= bound) by (nonlinear_arith)
        requires
            rest >= 1,
            -bound <= y * rest <= bound,
    ;
    assert((x + y) * rest == x * rest + y * rest) by (nonlinear_arith);
    assert((x - y) * rest == x * rest - y * rest) by (nonlinear_arith);
    assert(b.negated().mantissa_at(scale) == -y) by (nonlinear_arith)
        requires
            b.negated().mantissa_at(scale) == (-b.mantissa) * pow10((scale - b.scale) as nat),
            y == b.mantissa * pow10((scale - b.scale) as nat),
    ;
    assert(b.negated().mantissa_at(places) == -b.mantissa_at(places)) by (nonlinear_arith)
        requires
            b.negated().mantissa_at(places) == (-b.mantissa) * pow10((places - b.scale) as nat),
            b.mantissa_at(places) == b.mantissa * pow10((places - b.scale) as nat),
    ;
}

/// Taking away what was just added gives back the same number, where the
/// addition was exact.
pub proof fn lemma_add_then_sub(a: DecimalValue, x: DecimalValue)
    requires
        a.valid(),
        x.valid(),
        sum_is_exact(a, x),
    ensures
        difference_is_exact(saturating_sum(a, x), x),
        saturating_difference(saturating_sum(a, x), x).units() == a.units(),
{
    let sum = saturating_sum(a, x);
    lemma_exact_sum(a, x);
    lemma_mantissa_at_own_scale(x.negated());
    lemma_mantissa_at_own_scale(sum);
    if a.mantissa != 0 && x.mantissa != 0 {
        assert(x.negated().mantissa_at(sum.scale) == -x.mantissa_at(sum.scale)) by (nonlinear_arith)
            requires
                x.negated().mantissa_at(sum.scale) == (-x.mantissa) * pow10(
                    (sum.scale - x.scale) as nat,
                ),
                x.mantissa_at(sum.scale) == x.mantissa * pow10((sum.scale - x.scale) as nat),
        ;
    }
    lemma_exact_difference(sum, x);
}

/// Adding back what was just taken away gives back the same number, where
/// the subtraction was exact.
pub proof fn lemma_sub_then_add(a: DecimalValue, x: DecimalValue)
    requires
        a.valid(),
        x.valid(),
        difference_is_exact(a, x),
    ensures
        sum_is_exact(saturating_difference(a, x), x),
        saturating_sum(saturating_difference(a, x), x).units() == a.units(),
{
    let difference = saturating_difference(a, x);
    lemma_exact_difference(a, x);
    lemma_mantissa_at_own_scale(x);
    lemma_mantissa_at_own_scale(difference);
    if a.mantissa != 0 && x.mantissa != 0 {
        assert(x.negated().mantissa_at(difference.scale) == -x.mantissa_at(difference.scale))
            by (nonlinear_arith)
            requires
                x.negated().mantissa_at(difference.scale) == (-x.mantissa) * pow10(
                    (difference.scale - x.scale) as nat,
                ),
                x.mantissa_at(difference.scale) == x.mantissa * pow10(
                    (difference.scale - x.scale) as nat,
                ),
        ;
    }
    lemma_exact_sum(difference, x);
}

/// A value written with its own scale has its own mantissa.
pub proof fn lemma_mantissa_at_own_scale(value: DecimalValue)
    ensures
        value.mantissa_at(value.scale) == value.mantissa,
{
}

/// A fixed-point decimal number.
#[derive(Clone, Copy, Debug)]
pub struct Amount {
    mantissa: i128,
    scale: u32,
}

impl View for Amount {
    type V = DecimalValue;

    closed spec fn view(&self) -> DecimalValue {
        DecimalValue { mantissa: self.mantissa as int, scale: self.scale as nat }
    }
}

impl Amount {
    #[verifier::type_invariant]
    pub closed spec fn well_formed(self) -> bool {
        -MAX_MANTISSA <= self.mantissa <= MAX_MANTISSA && self.scale <= MAX_SCALE
    }

    /// An amount holds a valid value. For an amount at hand the premise comes
    /// from `use_type_invariant`.
    pub proof fn lemma_well_formed(self)
        requires
            self.well_formed(),
        ensures
            self@.valid(),
    {
    }

    /// The amount `mantissa / 10^scale`, or `None` where the mantissa needs
    /// more than 96 bits or the scale is above 28.
    pub fn new(mantissa: i128, scale: u32) -> (result: Option<Amount>)
        ensures
            result is Some <==> fits(mantissa as int) && scale <= MAX_SCALE,
            result matches Some(amount) ==> amount@.mantissa == mantissa && amount@.scale == scale,
    {
        if -MAX_MANTISSA <= mantissa && mantissa <= MAX_MANTISSA && scale <= MAX_SCALE {
            Some(Amount { mantissa, scale })
        } else {
            None
        }
    }

    /// Zero, written without fractional digits.
    pub fn zero() -> (result: Amount)
        ensures
            result@ == DecimalValue::zero(),
            result@.valid(),
    {
        Amount { mantissa: 0, scale: 0 }
    }

    /// The mantissa of this amount.
    pub fn mantissa(&self) -> (result: i128)
        ensures
            result == self@.mantissa,
            fits(result as int),
    {
        proof {
            use_type_invariant(self);
        }
        self.mantissa
    }

    /// The number of fractional digits of this amount.
    pub fn scale(&self) -> (result: u32)
        ensures
            result == self@.scale,
            result <= MAX_SCALE,
    {
        proof {
            use_type_invariant(self);
        }
        self.scale
    }

    /// `self + other`, clamped to the largest or smallest amount where the
    /// sum is out of range.
    pub fn saturating_add(self, other: Amount) -> (result: Amount)
        ensures
            result@ == saturating_sum(self@, other@),
            result@.valid(),
    {
        let result = decimal_add(self, other);
        proof {
            use_type_invariant(&result);
        }
        result
    }

    /// `self - other`, clamped to the largest or smallest amount where the
    /// difference is out of range.
    pub fn saturating_sub(self, other: Amount) -> (result: Amount)
        ensures
            result@ == saturating_difference(self@, other@),
            result@.valid(),
    {
        let result = decimal_sub(self, other);
        proof {
            use_type_invariant(&result);
        }
        result
    }

    /// Whether `self` is at least `other`, as numbers.
    pub fn ge(&self, other: &Amount) -> (result: bool)
        ensures
            result == self@.at_least(other@),
    {
        decimal_ge(*self, *other)
    }

    /// This amount rounded to `places` fractional digits, a tie going away
    /// from zero.
    pub fn round_half_away(self, places: u32) -> (result: Amount)
        ensures
            result@ == rounded_half_away(self@, places as nat),
            result@.valid(),
    {
        let result = decimal_round(self, places);
        proof {
            use_type_invariant(&result);
        }
        result
    }

    /// The amount in decimal notation.
    pub fn to_string(&self) -> (result: String)
        ensures
            result@ == decimal_text(self@),
    {
        decimal_to_string(*self)
    }
}

/// Calls `Decimal::saturating_add`, on decimals made of the mantissa and scale
/// of each amount, which are within the range of a decimal by the invariant
/// of [`Amount`]. The contract claims that the result is a function of the
/// two values, and three things more, which [`settled_sum`] spells out: a
/// zero operand gives back the other operand, whatever its scale; operands
/// that can both be written with the wider scale in 96 bits, and whose sum
/// then fits in 96 bits, give that sum at that scale; and operands without
/// fractional digits whose sum does not fit give `Decimal::MAX` where the left
/// one is positive and `Decimal::MIN` where it is negative.
#[verifier::external_body]
fn decimal_add(a: Amount, b: Amount) -> (result: Amount)
    ensures
        result@ == (match settled_sum(a@, b@) {
            Some(sum) => sum,
            None => decimal_saturating_add(a@, b@),
        }),
{
    let x = Decimal::from_i128_with_scale(a.mantissa, a.scale);
    let y = Decimal::from_i128_with_scale(b.mantissa, b.scale);
    let sum = x.saturating_add(y);
    Amount { mantissa: sum.mantissa(), scale: sum.scale() }
}

/// Calls `Decimal::saturating_sub`, on decimals made of the mantissa and scale
/// of each amount. The contract claims that the result is a function of the
/// two values, and that the three rules of [`settled_sum`] hold of `a` and
/// the negation of `b`: subtracting zero gives back `a`, subtracting from
/// zero gives the negation of `b`, a difference that fits at the wider scale
/// is exact, and one without fractional digits that does not fit is clamped
/// to the bound on the side of `a`.
#[verifier::external_body]
fn decimal_sub(a: Amount, b: Amount) -> (result: Amount)
    ensures
        result@ == (match settled_sum(a@, b@.negated()) {
            Some(difference) => difference,
            None => decimal_saturating_sub(a@, b@),
        }),
{
    let x = Decimal::from_i128_with_scale(a.mantissa, a.scale);
    let y = Decimal::from_i128_with_scale(b.mantissa, b.scale);
    let difference = x.saturating_sub(y);
    Amount { mantissa: difference.mantissa(), scale: difference.scale() }
}

/// Calls `>=` of `Decimal`, which compares the two decimals as numbers,
/// whatever scale each is written with: it brings the one with the smaller
/// scale to the scale of the other and compares the mantissas.
#[verifier::external_body]
fn decimal_ge(a: Amount, b: Amount) -> (result: bool)
    ensures
        result == a@.at_least(b@),
{
    let x = Decimal::from_i128_with_scale(a.mantissa, a.scale);
    let y = Decimal::from_i128_with_scale(b.mantissa, b.scale);
    x >= y
}

/// Calls `Decimal::round_dp_with_strategy` with the strategy
/// `MidpointAwayFromZero`. The contract claims that a decimal with no more
/// than `places` fractional digits comes back unchanged, and that any other
/// is cut to `places` digits, its last digit raised by one where what was cut
/// is at least half a unit of that digit.
#[verifier::external_body]
fn decimal_round(a: Amount, places: u32) -> (result: Amount)
    ensures
        result@ == rounded_half_away(a@, places as nat),
{
    let x = Decimal::from_i128_with_scale(a.mantissa, a.scale);
    let rounded = x.round_dp_with_strategy(places, RoundingStrategy::MidpointAwayFromZero);
    Amount { mantissa: rounded.mantissa(), scale: rounded.scale() }
}

/// Calls `to_string` of `Decimal`, which writes the decimal in plain decimal
/// notation with as many fractional digits as its scale says.
#[verifier::external_body]
fn decimal_to_string(a: Amount) -> (result: String)
    ensures
        result@ == decimal_text(a@),
{
    Decimal::from_i128_with_scale(a.mantissa, a.scale).to_string()
}

} // verus!

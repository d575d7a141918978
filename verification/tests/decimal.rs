use rust_decimal::Decimal;
use transaction_processor::decimal::Amount;

const LIMIT: i128 = 79_228_162_514_264_337_593_543_950_335;

fn amount(mantissa: i128, scale: u32) -> Amount {
    Amount::new(mantissa, scale).unwrap()
}

fn parts(value: Amount) -> (i128, u32) {
    (value.mantissa(), value.scale())
}

fn fits(mantissa: i128) -> bool {
    -LIMIT <= mantissa && mantissa <= LIMIT
}

/// The mantissa of `mantissa / 10^from` written with `to` fractional digits,
/// where it fits.
fn mantissa_at(mantissa: i128, from: u32, to: u32) -> Option<i128> {
    let scaled = mantissa.checked_mul(10i128.checked_pow(to - from)?)?;
    if fits(scaled) {
        Some(scaled)
    } else {
        None
    }
}

/// The sum on the operands for which the library states it outright.
fn settled_sum(a: (i128, u32), b: (i128, u32)) -> Option<(i128, u32)> {
    if a.0 == 0 {
        return Some(b);
    }
    if b.0 == 0 {
        return Some(a);
    }
    let scale = a.1.max(b.1);
    let exact = match (mantissa_at(a.0, a.1, scale), mantissa_at(b.0, b.1, scale)) {
        (Some(x), Some(y)) if fits(x + y) => Some((x + y, scale)),
        _ => None,
    };
    if exact.is_some() {
        exact
    } else if scale == 0 {
        Some((if a.0 > 0 { LIMIT } else { -LIMIT }, 0))
    } else {
        None
    }
}

fn rounded(value: (i128, u32), places: u32) -> (i128, u32) {
    if value.1 <= places {
        return value;
    }
    let unit = 10i128.pow(value.1 - places);
    let magnitude = value.0.abs();
    let kept = magnitude / unit + if 2 * (magnitude % unit) >= unit { 1 } else { 0 };
    (if value.0 < 0 { -kept } else { kept }, places)
}

/// Whether `a >= b` as numbers.
fn at_least(a: (i128, u32), b: (i128, u32)) -> bool {
    let scale = a.1.max(b.1);
    let x = a.0.checked_mul(10i128.pow(scale - a.1));
    let y = b.0.checked_mul(10i128.pow(scale - b.1));
    match (x, y) {
        (Some(x), Some(y)) => x >= y,
        (None, _) => a.0 > 0,
        (_, None) => b.0 < 0,
    }
}

fn samples() -> Vec<(i128, u32)> {
    let magnitudes: Vec<i128> = vec![
        0,
        1,
        5,
        15,
        100,
        12_345,
        999_999_999,
        4_294_967_295,
        4_294_967_296,
        18_446_744_073_709_551_615,
        18_446_744_073_709_551_616,
        123_456_789_012_345_678_901_234_567,
        7_922_816_251_426_433_759_354_395_033,
        LIMIT / 2,
        LIMIT / 2 + 1,
        LIMIT - 1,
        LIMIT,
    ];
    let scales: Vec<u32> = vec![0, 1, 2, 4, 5, 9, 10, 18, 19, 20, 27, 28];
    let mut all = Vec::new();
    for magnitude in &magnitudes {
        for scale in &scales {
            all.push((*magnitude, *scale));
            if *magnitude != 0 {
                all.push((-*magnitude, *scale));
            }
        }
    }
    all
}

/// A fixed sequence of operands of every size and scale.
fn scattered(count: usize) -> Vec<(i128, u32)> {
    let mut state: u64 = 0x9E37_79B9_7F4A_7C15;
    let mut next = move || {
        state ^= state << 13;
        state ^= state >> 7;
        state ^= state << 17;
        state
    };
    let mut all = Vec::with_capacity(count);
    for _ in 0..count {
        let bits = next() % 97;
        let wide = ((next() as u128) << 64 | next() as u128) & ((1u128 << 96) - 1);
        let magnitude = if bits == 0 { 0 } else { (wide >> (96 - bits)) as i128 };
        let mantissa = if next() % 2 == 0 { magnitude } else { -magnitude };
        let scale = (next() % 29) as u32;
        all.push((mantissa, scale));
    }
    all
}

#[test]
fn contracts_hold_on_scattered_operands() {
    let all = scattered(1_500);
    let mut settled = 0usize;
    for a in &all {
        let left = amount(a.0, a.1);
        assert_eq!(left.to_string(), notation(*a), "{:?}", a);
        assert_eq!(parts(left.round_half_away(4)), rounded(*a, 4), "{:?}", a);
        for b in all.iter().take(300) {
            let right = amount(b.0, b.1);
            assert_eq!(left.ge(&right), at_least(*a, *b), "{:?} >= {:?}", a, b);
            if let Some(expected) = settled_sum(*a, *b) {
                assert_eq!(parts(left.saturating_add(right)), expected, "{:?} + {:?}", a, b);
                settled += 1;
            }
            if let Some(expected) = settled_sum(*a, (-b.0, b.1)) {
                assert_eq!(parts(left.saturating_sub(right)), expected, "{:?} - {:?}", a, b);
                settled += 1;
            }
        }
    }
    assert!(settled > 100_000);
}

#[test]
fn new_accepts_exactly_the_valid_pairs() {
    assert!(Amount::new(LIMIT, 28).is_some());
    assert!(Amount::new(-LIMIT, 0).is_some());
    assert!(Amount::new(LIMIT + 1, 0).is_none());
    assert!(Amount::new(-LIMIT - 1, 0).is_none());
    assert!(Amount::new(1, 29).is_none());
    assert_eq!(parts(amount(-1_234_567, 3)), (-1_234_567, 3));
    assert_eq!(parts(Amount::zero()), (0, 0));
}

#[test]
fn sum_is_what_the_contract_states_on_settled_operands() {
    let all = samples();
    let mut settled = 0usize;
    for a in &all {
        for b in &all {
            if let Some(expected) = settled_sum(*a, *b) {
                let sum = amount(a.0, a.1).saturating_add(amount(b.0, b.1));
                assert_eq!(parts(sum), expected, "{:?} + {:?}", a, b);
                settled += 1;
            }
        }
    }
    assert!(settled > 10_000);
}

#[test]
fn difference_is_what_the_contract_states_on_settled_operands() {
    let all = samples();
    let mut settled = 0usize;
    for a in &all {
        for b in &all {
            if let Some(expected) = settled_sum(*a, (-b.0, b.1)) {
                let difference = amount(a.0, a.1).saturating_sub(amount(b.0, b.1));
                assert_eq!(parts(difference), expected, "{:?} - {:?}", a, b);
                settled += 1;
            }
        }
    }
    assert!(settled > 10_000);
}

#[test]
fn sum_and_difference_are_always_amounts() {
    let all = samples();
    for a in &all {
        for b in &all {
            let sum = amount(a.0, a.1).saturating_add(amount(b.0, b.1));
            assert!(Amount::new(sum.mantissa(), sum.scale()).is_some());
            let difference = amount(a.0, a.1).saturating_sub(amount(b.0, b.1));
            assert!(Amount::new(difference.mantissa(), difference.scale()).is_some());
        }
    }
}

#[test]
fn order_is_that_of_the_numbers() {
    let all = samples();
    for a in &all {
        for b in &all {
            assert_eq!(
                amount(a.0, a.1).ge(&amount(b.0, b.1)),
                at_least(*a, *b),
                "{:?} >= {:?}",
                a,
                b
            );
        }
    }
    assert!(amount(100, 0).ge(&amount(1000, 1)));
    assert!(amount(1000, 1).ge(&amount(100, 0)));
    assert!(!amount(999, 1).ge(&amount(100, 0)));
    assert!(amount(-1, 28).ge(&amount(-1, 0)));
}

#[test]
fn rounding_is_half_away_from_zero() {
    let all = samples();
    for places in [0u32, 2, 4, 27] {
        for a in &all {
            let result = amount(a.0, a.1).round_half_away(places);
            assert_eq!(parts(result), rounded(*a, places), "{:?} to {}", a, places);
        }
    }
    assert_eq!(parts(amount(123_455, 5).round_half_away(4)), (12_346, 4));
    assert_eq!(parts(amount(123_454, 5).round_half_away(4)), (12_345, 4));
    assert_eq!(parts(amount(-123_455, 5).round_half_away(4)), (-12_346, 4));
    assert_eq!(parts(amount(25, 1).round_half_away(4)), (25, 1));
    assert_eq!(parts(amount(5, 5).round_half_away(4)), (1, 4));
    assert_eq!(parts(amount(4, 5).round_half_away(4)), (0, 4));
}

#[test]
fn sum_keeps_the_wider_scale() {
    assert_eq!(parts(amount(100, 0).saturating_add(amount(15, 1))), (1015, 1));
    assert_eq!(parts(amount(15, 1).saturating_add(amount(100, 0))), (1015, 1));
    assert_eq!(parts(amount(1015, 1).saturating_sub(amount(15, 1))), (1000, 1));
    assert_eq!(parts(amount(5, 0).saturating_sub(amount(50, 1))), (0, 1));
}

#[test]
fn zero_leaves_the_other_operand_as_written() {
    assert_eq!(parts(amount(0, 0).saturating_add(amount(150, 2))), (150, 2));
    assert_eq!(parts(amount(0, 5).saturating_add(amount(7, 0))), (7, 0));
    assert_eq!(parts(amount(7, 0).saturating_add(amount(0, 5))), (7, 0));
    assert_eq!(parts(amount(7, 1).saturating_sub(amount(0, 5))), (7, 1));
    assert_eq!(parts(amount(0, 5).saturating_sub(amount(7, 1))), (-7, 1));
    assert_eq!(parts(amount(0, 5).saturating_sub(amount(0, 1))), (0, 1));
}

#[test]
fn sum_is_clamped_at_the_bounds() {
    assert_eq!(parts(amount(LIMIT, 0).saturating_add(amount(1, 0))), (LIMIT, 0));
    assert_eq!(parts(amount(-LIMIT, 0).saturating_add(amount(-1, 0))), (-LIMIT, 0));
    assert_eq!(parts(amount(-LIMIT, 0).saturating_sub(amount(1, 0))), (-LIMIT, 0));
    assert_eq!(parts(amount(LIMIT, 0).saturating_sub(amount(-LIMIT, 0))), (LIMIT, 0));
    assert_eq!(parts(amount(LIMIT, 0).saturating_add(amount(-LIMIT, 0))), (0, 0));
    assert_eq!(
        Decimal::from_i128_with_scale(LIMIT, 0),
        Decimal::MAX.saturating_add(Decimal::ONE)
    );
}

/// Plain decimal notation, put together digit by digit.
fn notation(value: (i128, u32)) -> String {
    let mut digits: Vec<char> = Vec::new();
    let mut rest = value.0.unsigned_abs();
    while rest > 0 {
        digits.push(char::from(b'0' + (rest % 10) as u8));
        rest /= 10;
    }
    while digits.len() <= value.1 as usize {
        digits.push('0');
    }
    let mut text = String::new();
    if value.0 < 0 {
        text.push('-');
    }
    for (place, digit) in digits.iter().enumerate().rev() {
        text.push(*digit);
        if place == value.1 as usize && place > 0 {
            text.push('.');
        }
    }
    text
}

#[test]
fn text_is_plain_decimal_notation() {
    assert_eq!(notation((0, 0)), "0");
    assert_eq!(notation((-5, 3)), "-0.005");
    assert_eq!(notation((1200, 2)), "12.00");
    for a in samples() {
        assert_eq!(amount(a.0, a.1).to_string(), notation(a), "{:?}", a);
    }
    assert_eq!(amount(0, 28).to_string(), "0.0000000000000000000000000000");
    assert_eq!(amount(LIMIT, 0).to_string(), "79228162514264337593543950335");
    assert_eq!(amount(-LIMIT, 28).to_string(), "-7.9228162514264337593543950335");
}

#[test]
fn text_is_that_of_the_decimal() {
    assert_eq!(amount(0, 0).to_string(), "0");
    assert_eq!(amount(100, 0).to_string(), "100");
    assert_eq!(amount(1000, 1).to_string(), "100.0");
    assert_eq!(amount(-15, 1).to_string(), "-1.5");
    assert_eq!(amount(5, 3).to_string(), "0.005");
    assert_eq!(amount(3141, 3).to_string(), Decimal::new(3141, 3).to_string());
}

use hesap::{DecimalValue, Digit, DisplayNumber};

// note no add_numbers will be added to DisplayNumber as this is meant purely for the calculator
fn add_235(num: &mut DisplayNumber) {
    num.add_digit(Digit::Two);
    num.add_digit(Digit::Three);
    num.add_digit(Digit::Five);
}

fn make_235() -> DisplayNumber {
    let mut num = DisplayNumber::default();
    add_235(&mut num);
    num
}

#[test]
fn add_digits() {
    let num = make_235();
    assert_eq!(num.to_string(), "235");
}

#[test]
fn add_zero() {
    let mut num = DisplayNumber::default();
    assert_eq!(num.to_string(), "0");
    num.add_digit(Digit::Zero);
    assert_eq!(num.to_string(), "0");
}

#[test]
fn change_sign() {
    let mut num = make_235();
    num.swap_sign();
    assert_eq!(num.to_string(), "-235");
    num.swap_sign();
    assert_eq!(num.to_string(), "235");
}

#[test]
fn use_fraction() {
    let mut num = DisplayNumber::default();
    num.be_fractional();
    assert_eq!(num.to_string(), "0.");
    num.be_fractional();
    assert_eq!(num.to_string(), "0.");

    add_235(&mut num);
    assert_eq!(num.to_string(), "0.235");

    num.clear();
    add_235(&mut num);
    num.be_fractional();
    add_235(&mut num);
    assert_eq!(num.to_string(), "235.235");
}

#[test]
fn remove_digits() {
    let mut num = make_235();
    num.remove_char();
    assert_eq!(num.to_string(), "23");
    num.be_fractional();
    num.remove_char();
    assert_eq!(num.to_string(), "23");
    num.be_fractional();
    assert_eq!(num.to_string(), "23.");
    num.remove_char();
    num.remove_char();
    num.remove_char();
    assert_eq!(num.to_string(), "0");
}

#[test]
fn count_digits() {
    let mut num = DisplayNumber::default();
    add_235(&mut num);
    assert_eq!(num.digits_used(), 3);

    num.clear();
    add_235(&mut num);
    num.be_fractional();
    add_235(&mut num);
    assert_eq!(num.digits_used(), 6);
}

fn dec(negative: bool, mantissa: u128, scale: u32) -> DecimalValue {
    DecimalValue { negative, mantissa, scale }
}

#[test]
fn to_decimal_reads_typed_digits() {
    let mut num = make_235();
    num.be_fractional();
    add_235(&mut num);
    assert_eq!(num.to_decimal(), dec(false, 235235, 3));
    num.swap_sign();
    assert_eq!(num.to_decimal(), dec(true, 235235, 3));
}

#[test]
fn to_decimal_of_trailing_point() {
    let mut num = make_235();
    num.be_fractional();
    assert_eq!(num.to_decimal(), dec(false, 235, 0));
    assert_eq!(num.try_to_decimal(), Some(dec(false, 235, 0)));
}

#[test]
fn to_decimal_of_negative_zero_keeps_sign() {
    let mut num = DisplayNumber::default();
    num.swap_sign();
    assert_eq!(num.to_string(), "-0");
    assert_eq!(num.to_decimal(), dec(true, 0, 0));
}

#[test]
fn try_to_decimal_refuses_overlong_integer() {
    let mut num = DisplayNumber::default();
    for _ in 0..30 {
        num.add_digit(Digit::Nine);
    }
    assert_eq!(num.digits_used(), 30);
    assert_eq!(num.try_to_decimal(), None);
}

#[test]
fn set_decimal_normalizes() {
    let mut num = DisplayNumber::default();
    num.set_decimal(dec(false, 3100, 3));
    assert_eq!(num.to_string(), "3.1");
    num.set_decimal(dec(true, 232500, 4));
    assert_eq!(num.to_string(), "-23.25");
    num.set_decimal(dec(false, 5, 2));
    assert_eq!(num.to_string(), "0.05");
    num.set_decimal(dec(false, 0, 5));
    assert_eq!(num.to_string(), "0");
    num.set_decimal(dec(true, 0, 5));
    assert_eq!(num.to_string(), "-0");
    num.set_decimal(dec(false, 12000, 0));
    assert_eq!(num.to_string(), "12000");
}

#[test]
fn set_decimal_reads_back() {
    let mut num = DisplayNumber::default();
    num.set_decimal(dec(true, 1_500, 3));
    assert_eq!(num.to_decimal(), dec(true, 15, 1));
    let big = dec(false, (1u128 << 96) - 1, 28);
    num.set_decimal(big);
    assert_eq!(num.to_string(), "7.9228162514264337593543950335");
    assert_eq!(num.to_decimal(), big);
}

#[test]
fn remove_char_undoes_add_digit() {
    let mut num = make_235();
    num.be_fractional();
    num.add_digit(Digit::Seven);
    num.remove_char();
    assert_eq!(num.to_string(), "235.");
    let mut zero = DisplayNumber::default();
    zero.add_digit(Digit::Four);
    zero.remove_char();
    assert_eq!(zero.to_string(), "0");
}

#[test]
fn set_numeral_accepts_numerals_only() {
    let mut num = make_235();
    assert!(num.set_numeral(true, "32.5"));
    assert_eq!(num.to_string(), "-32.5");
    assert!(!num.set_numeral(false, "inf"));
    assert!(!num.set_numeral(false, ".5"));
    assert!(!num.set_numeral(false, "1.2.3"));
    assert!(!num.set_numeral(false, ""));
    assert_eq!(num.to_string(), "-32.5");
}

#[test]
fn digit_values_and_labels() {
    assert_eq!(Digit::Zero.value(), 0);
    assert_eq!(Digit::Seven.value(), 7);
    assert_eq!(Digit::Nine.value_as_str(), "9");
    assert_eq!(Digit::Three.value_as_str(), "3");
}

#[test]
fn point_keeps_reading() {
    let mut num = DisplayNumber::default();
    for _ in 0..30 {
        num.add_digit(Digit::Nine);
    }
    num.be_fractional();
    assert_eq!(num.try_to_decimal(), None);
    let mut small = make_235();
    small.swap_sign();
    let before = small.to_decimal();
    small.be_fractional();
    assert_eq!(small.to_decimal(), before);
}

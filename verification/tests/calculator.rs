use hesap::{Button, CalcError, Calculator, DecimalValue, Digit};

fn press_all(calc: &mut Calculator, keys: &str) {
    for c in keys.chars() {
        let text = c.to_string();
        let button = hesap::button_for_text(&text).expect("a key");
        calc.on_button_press(button);
    }
}

#[test]
fn starts_at_zero() {
    let calc = Calculator::default();
    assert_eq!(calc.display_output(), "0");
}

#[test]
fn adds() {
    let mut calc = Calculator::default();
    press_all(&mut calc, "2+3=");
    assert_eq!(calc.display_output(), "5");
}

#[test]
fn subtracts_below_zero() {
    let mut calc = Calculator::default();
    press_all(&mut calc, "2-3.5=");
    assert_eq!(calc.display_output(), "-1.5");
}

#[test]
fn multiplies_and_normalizes() {
    let mut calc = Calculator::default();
    press_all(&mut calc, "1.50*2=");
    assert_eq!(calc.display_output(), "3");
}

#[test]
fn divides() {
    let mut calc = Calculator::default();
    press_all(&mut calc, "1/3=");
    assert_eq!(calc.display_output(), "0.3333333333333333333333333333");
    press_all(&mut calc, "*3=");
    assert_eq!(calc.display_output(), "0.9999999999999999999999999999");
}

#[test]
fn division_by_zero_shows_error_until_cleared() {
    let mut calc = Calculator::default();
    press_all(&mut calc, "7/0=");
    assert_eq!(calc.display_output(), "Division by zero");
    press_all(&mut calc, "5+");
    assert_eq!(calc.display_output(), "Division by zero");
    calc.on_button_press(Button::ClearEntry);
    assert_eq!(calc.display_output(), "0");
}

#[test]
fn multiplication_overflow() {
    let mut calc = Calculator::default();
    press_all(&mut calc, "99999999999999*99999999999999=");
    assert_eq!(calc.display_output(), "9999999999999800000000000001");
    press_all(&mut calc, "c999999999999999*999999999999999=");
    assert_eq!(calc.display_output(), "Multiplication overflow");
}

#[test]
fn evaluate_reports_each_error() {
    let mut calc = Calculator::default();
    press_all(&mut calc, "9/");
    assert_eq!(calc.evaluate(), Err(CalcError::DivisionByZero));
    press_all(&mut calc, "4");
    assert_eq!(
        calc.evaluate(),
        Ok(DecimalValue { negative: false, mantissa: 225, scale: 2 })
    );
}

#[test]
fn error_messages() {
    assert_eq!(CalcError::AdditionOverflow.message(), "Addition overflow");
    assert_eq!(CalcError::SubtractionOverflow.message(), "Subtraction overflow");
    assert_eq!(CalcError::MultiplicationOverflow.message(), "Multiplication overflow");
    assert_eq!(CalcError::DivisionByZero.message(), "Division by zero");
    assert_eq!(CalcError::DivisionOverflow.message(), "Division overflow");
    assert_eq!(CalcError::InvalidInput.message(), "Invalid Input");
}

#[test]
fn percentage() {
    let mut calc = Calculator::default();
    press_all(&mut calc, "50%");
    assert_eq!(calc.display_output(), "0.5");
    press_all(&mut calc, "s");
    assert_eq!(calc.display_output(), "-0.5");
}

#[test]
fn clear_resets_memory_and_operation() {
    let mut calc = Calculator::default();
    press_all(&mut calc, "8+4c");
    assert_eq!(calc.display_output(), "0");
    press_all(&mut calc, "6=");
    assert_eq!(calc.display_output(), "6");
}

#[test]
fn clear_entry_keeps_pending_operation() {
    let mut calc = Calculator::default();
    press_all(&mut calc, "8+4C1=");
    assert_eq!(calc.display_output(), "9");
}

#[test]
fn digit_limit() {
    let mut calc = Calculator::default();
    for _ in 0..20 {
        calc.on_button_press(Button::Number(Digit::One));
    }
    assert_eq!(calc.display_output(), "111111111111111");
    calc.on_button_press(Button::Period);
    calc.on_button_press(Button::Number(Digit::Two));
    assert_eq!(calc.display_output(), "111111111111111.");
}

#[test]
fn operator_replaces_operator() {
    let mut calc = Calculator::default();
    press_all(&mut calc, "6+-*2=");
    assert_eq!(calc.display_output(), "12");
}

#[test]
fn evaluate_in_input_mode_normalizes_display() {
    let mut calc = Calculator::default();
    press_all(&mut calc, "2.500=");
    assert_eq!(calc.display_output(), "2.5");
}

#[test]
fn negative_zero_is_kept() {
    let mut calc = Calculator::default();
    press_all(&mut calc, "s=");
    assert_eq!(calc.display_output(), "-0");
}

#[test]
fn backspace() {
    let mut calc = Calculator::default();
    press_all(&mut calc, "12.");
    calc.remove_char();
    assert_eq!(calc.display_output(), "12");
    calc.remove_char();
    calc.remove_char();
    assert_eq!(calc.display_output(), "0");
}

#[test]
fn paste() {
    let mut calc = Calculator::default();
    calc.paste("12.50");
    assert_eq!(calc.display_output(), "12.5");
    calc.paste("-3");
    assert_eq!(calc.display_output(), "-3");
    calc.paste("abc");
    assert_eq!(calc.display_output(), "Invalid Input");
    calc.on_button_press(Button::Clear);
    calc.paste("1e3");
    assert_eq!(calc.display_output(), "1000");
}

#[test]
fn keyboard_text() {
    assert_eq!(hesap::button_for_text("/"), Some(Button::Divide));
    assert_eq!(hesap::button_for_text("c"), Some(Button::Clear));
    assert_eq!(hesap::button_for_text("C"), Some(Button::ClearEntry));
    assert_eq!(hesap::button_for_text(","), Some(Button::Period));
    assert_eq!(hesap::button_for_text("s"), Some(Button::SignChange));
    assert_eq!(hesap::button_for_text("7"), Some(Button::Number(Digit::Seven)));
    assert_eq!(hesap::button_for_text("x"), None);
    assert_eq!(hesap::button_for_text("12"), None);
    assert_eq!(hesap::button_for_text(""), None);
}

#[test]
fn labels_and_types() {
    assert_eq!(Button::ClearEntry.label(), "CE");
    assert_eq!(Button::SignChange.label(), "+/-");
    assert_eq!(Button::Number(Digit::Four).label(), "4");
    assert_eq!(Button::Evaluate.button_type(), hesap::ButtonType::Operator);
    assert_eq!(Button::Percentage.button_type(), hesap::ButtonType::Other);
    assert_eq!(Button::Number(Digit::Zero).button_type(), hesap::ButtonType::Number);
    for b in [Button::Plus, Button::Minus, Button::Multiply, Button::Divide, Button::Evaluate, Button::Period, Button::Percentage] {
        assert_eq!(hesap::button_for_text(b.label()), Some(b));
    }
}

#[test]
fn pending_mode() {
    let mut calc = Calculator::default();
    calc.on_button_press(Button::Number(Digit::Five));
    // `enter` computes what is pending: with nothing pending, the memory.
    calc.enter();
    assert_eq!(calc.display_output(), "0");
    calc.on_button_press(Button::Number(Digit::Eight));
    calc.input_to_percentage();
    assert_eq!(calc.display_output(), "0.08");
}

#[test]
fn percentage_of_negative_keeps_error() {
    let mut calc = Calculator::default();
    press_all(&mut calc, "5s%");
    assert_eq!(calc.display_output(), "-0.05");
    press_all(&mut calc, "/0=%");
    assert_eq!(calc.display_output(), "Division by zero");
}

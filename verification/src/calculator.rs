//! The calculator behind the keypad: a display, a number kept in memory, the
//! pending operation and the error on show.

use vstd::prelude::*;

use crate::decimal::{
    checked_add, checked_div, checked_mul, checked_sub, decimal_checked_add, decimal_checked_div,
    decimal_checked_mul, decimal_checked_sub, decimal_from_str, decimal_parse,
    common_scale, exact_decimal, exact_difference, exact_product, exact_quotient, exact_sum,
    hundred, int_abs, lemma_short_numeral_fits, numeral_decimal, product_fits, quotient_exact,
    same_number, signed, small_operands, DecimalValue, MANTISSA_LIMIT,
};
use crate::digit::Digit;
use crate::display_number::{
    decimal_text, text_after_digit, text_after_point, text_after_removal, DisplayNumber,
};
use crate::numeral::{digit_count, is_numeral};

verus! {

/// The most digits the keypad lets the display hold.
pub const MAX_DIGITS: usize = 15;

/// The operation waiting for its right operand; `Input` when there is none.
#[derive(Debug, Clone, Copy, PartialEq, Eq, Structural)]
pub enum CalculatorMode {
    Input,
    Addition,
    Subtraction,
    Multiplication,
    Division,
}

/// How a key behaves: operators take the display as an operand, numbers
/// type, and the others edit or reset.
#[derive(Debug, Clone, Copy, PartialEq, Eq, Structural)]
pub enum ButtonType {
    Operator,
    Other,
    Number,
}

/// A key of the keypad.
#[derive(Debug, Clone, Copy, PartialEq, Eq, Structural)]
pub enum Button {
    ClearEntry,
    Clear,
    Number(Digit),
    Multiply,
    Minus,
    Plus,
    Divide,
    SignChange,
    Percentage,
    Period,
    Evaluate,
}

/// Why a calculation gave no number.
#[derive(Debug, Clone, Copy, PartialEq, Eq, Structural)]
pub enum CalcError {
    AdditionOverflow,
    SubtractionOverflow,
    MultiplicationOverflow,
    DivisionByZero,
    DivisionOverflow,
    InvalidInput,
}

impl CalcError {
    /// The message shown on the display.
    pub open spec fn spec_message(self) -> Seq<char> {
        match self {
            CalcError::AdditionOverflow => "Addition overflow"@,
            CalcError::SubtractionOverflow => "Subtraction overflow"@,
            CalcError::MultiplicationOverflow => "Multiplication overflow"@,
            CalcError::DivisionByZero => "Division by zero"@,
            CalcError::DivisionOverflow => "Division overflow"@,
            CalcError::InvalidInput => "Invalid Input"@,
        }
    }

    pub fn message(&self) -> (s: &'static str)
        ensures
            s@ == self.spec_message(),
    {
        match self {
            CalcError::AdditionOverflow => "Addition overflow",
            CalcError::SubtractionOverflow => "Subtraction overflow",
            CalcError::MultiplicationOverflow => "Multiplication overflow",
            CalcError::DivisionByZero => "Division by zero",
            CalcError::DivisionOverflow => "Division overflow",
            CalcError::InvalidInput => "Invalid Input",
        }
    }
}

impl Button {
    pub open spec fn spec_button_type(self) -> ButtonType {
        match self {
            Button::Divide | Button::Multiply | Button::Minus | Button::Plus | Button::Evaluate => {
                ButtonType::Operator
            },
            Button::ClearEntry | Button::Clear | Button::Percentage | Button::SignChange
            | Button::Period => ButtonType::Other,
            Button::Number(_) => ButtonType::Number,
        }
    }

    pub open spec fn spec_label(self) -> Seq<char> {
        match self {
            Button::ClearEntry => "CE"@,
            Button::Clear => "C"@,
            Button::Number(d) => seq![d.spec_char()],
            Button::Multiply => "*"@,
            Button::Minus => "-"@,
            Button::Plus => "+"@,
            Button::Divide => "/"@,
            Button::SignChange => "+/-"@,
            Button::Percentage => "%"@,
            Button::Period => "."@,
            Button::Evaluate => "="@,
        }
    }

    /// The text printed on the key.
    pub fn label(&self) -> (s: &'static str)
        ensures
            s@ == self.spec_label(),
    {
        match self {
            Button::ClearEntry => "CE",
            Button::Clear => "C",
            Button::Number(digit) => digit.value_as_str(),
            Button::Multiply => "*",
            Button::Minus => "-",
            Button::Plus => "+",
            Button::Divide => "/",
            Button::SignChange => "+/-",
            Button::Percentage => "%",
            Button::Period => ".",
            Button::Evaluate => "=",
        }
    }

    pub fn button_type(&self) -> (t: ButtonType)
        ensures
            t == self.spec_button_type(),
    {
        match self {
            Button::Divide | Button::Multiply | Button::Minus | Button::Plus | Button::Evaluate => {
                ButtonType::Operator
            },
            Button::ClearEntry | Button::Clear | Button::Percentage | Button::SignChange
            | Button::Period => ButtonType::Other,
            _ => ButtonType::Number,
        }
    }
}

/// The key a typed character stands for: `/ * - + =`, `c` for clear, `C`
/// for clear entry, `%`, `s` for the sign, `.` or `,` for the point, and
/// the digits.
pub open spec fn spec_button_for_char(c: char) -> Option<Button> {
    match c {
        '/' => Some(Button::Divide),
        '*' => Some(Button::Multiply),
        '-' => Some(Button::Minus),
        '+' => Some(Button::Plus),
        '=' => Some(Button::Evaluate),
        'c' => Some(Button::Clear),
        'C' => Some(Button::ClearEntry),
        '%' => Some(Button::Percentage),
        's' => Some(Button::SignChange),
        '.' => Some(Button::Period),
        ',' => Some(Button::Period),
        '0' => Some(Button::Number(Digit::Zero)),
        '1' => Some(Button::Number(Digit::One)),
        '2' => Some(Button::Number(Digit::Two)),
        '3' => Some(Button::Number(Digit::Three)),
        '4' => Some(Button::Number(Digit::Four)),
        '5' => Some(Button::Number(Digit::Five)),
        '6' => Some(Button::Number(Digit::Six)),
        '7' => Some(Button::Number(Digit::Seven)),
        '8' => Some(Button::Number(Digit::Eight)),
        '9' => Some(Button::Number(Digit::Nine)),
        _ => None,
    }
}

/// The key typed text stands for: one character that names a key.
pub open spec fn spec_button_for_text(text: Seq<char>) -> Option<Button> {
    if text.len() == 1 {
        spec_button_for_char(text[0])
    } else {
        None
    }
}

/// The key that typed text stands for, `None` for text that names none.
pub fn button_for_text(text: &str) -> (b: Option<Button>)
    ensures
        b == spec_button_for_text(text@),
{
    if text.unicode_len() != 1 {
        return None;
    }
    match text.get_char(0) {
        '/' => Some(Button::Divide),
        '*' => Some(Button::Multiply),
        '-' => Some(Button::Minus),
        '+' => Some(Button::Plus),
        '=' => Some(Button::Evaluate),
        'c' => Some(Button::Clear),
        'C' => Some(Button::ClearEntry),
        '%' => Some(Button::Percentage),
        's' => Some(Button::SignChange),
        '.' | ',' => Some(Button::Period),
        '0' => Some(Button::Number(Digit::Zero)),
        '1' => Some(Button::Number(Digit::One)),
        '2' => Some(Button::Number(Digit::Two)),
        '3' => Some(Button::Number(Digit::Three)),
        '4' => Some(Button::Number(Digit::Four)),
        '5' => Some(Button::Number(Digit::Five)),
        '6' => Some(Button::Number(Digit::Six)),
        '7' => Some(Button::Number(Digit::Seven)),
        '8' => Some(Button::Number(Digit::Eight)),
        '9' => Some(Button::Number(Digit::Nine)),
        _ => None,
    }
}

/// The state of a calculator, as mathematical values.
pub struct CalcModel {
    /// The sign of the display.
    pub negative: bool,
    /// The digits of the display.
    pub text: Seq<char>,
    pub error: Option<CalcError>,
    pub memory: DecimalValue,
    pub mode: CalculatorMode,
}

/// The number on the display.
pub open spec fn display_value(m: CalcModel) -> DecimalValue {
    signed(numeral_decimal(m.text), m.negative)
}

/// The result of the pending operation on the memory (left) and the display
/// (right).
pub open spec fn spec_evaluate(mode: CalculatorMode, left: DecimalValue, right: DecimalValue) -> Result<
    DecimalValue,
    CalcError,
> {
    match mode {
        CalculatorMode::Input => Ok(left),
        CalculatorMode::Addition => match decimal_checked_add(left, right) {
            Some(v) => Ok(v),
            None => Err(CalcError::AdditionOverflow),
        },
        CalculatorMode::Subtraction => match decimal_checked_sub(left, right) {
            Some(v) => Ok(v),
            None => Err(CalcError::SubtractionOverflow),
        },
        CalculatorMode::Multiplication => match decimal_checked_mul(left, right) {
            Some(v) => Ok(v),
            None => Err(CalcError::MultiplicationOverflow),
        },
        CalculatorMode::Division => if right.mantissa == 0 {
            Err(CalcError::DivisionByZero)
        } else {
            match decimal_checked_div(left, right) {
                Some(v) => Ok(v),
                None => Err(CalcError::DivisionOverflow),
            }
        },
    }
}

/// `r` is what adding `right` to `left` gives: `left` where `right` is zero,
/// `right` where `left` is, and the exact sum where the operands are small
/// and the sum fits.
pub open spec fn evaluates_sum(left: DecimalValue, right: DecimalValue, r: Result<DecimalValue, CalcError>) -> bool {
    &&& left.mantissa == 0 ==> r == Ok::<DecimalValue, CalcError>(right)
    &&& left.mantissa != 0 && right.mantissa == 0 ==> r == Ok::<DecimalValue, CalcError>(left)
    &&& small_operands(left, right) && int_abs(exact_sum(left, right)) < MANTISSA_LIMIT ==> r == Ok::<
        DecimalValue,
        CalcError,
    >(exact_decimal(exact_sum(left, right), common_scale(left, right)))
}

/// `r` is what subtracting `right` from `left` gives.
pub open spec fn evaluates_difference(left: DecimalValue, right: DecimalValue, r: Result<DecimalValue, CalcError>) -> bool {
    &&& left.mantissa == 0 && right.mantissa != 0 ==> r == Ok::<DecimalValue, CalcError>(right.spec_neg())
    &&& left.mantissa != 0 && right.mantissa == 0 ==> r == Ok::<DecimalValue, CalcError>(left)
    &&& small_operands(left, right) && int_abs(exact_difference(left, right)) < MANTISSA_LIMIT ==> r
        == Ok::<DecimalValue, CalcError>(
        exact_decimal(exact_difference(left, right), common_scale(left, right)),
    )
}

/// `r` is what multiplying `left` by `right` gives: zero where either is
/// zero, a result negative exactly where the signs differ, and the exact
/// product where it fits.
pub open spec fn evaluates_product(left: DecimalValue, right: DecimalValue, r: Result<DecimalValue, CalcError>) -> bool {
    &&& left.mantissa == 0 || right.mantissa == 0 ==> r == Ok::<DecimalValue, CalcError>(
        DecimalValue::spec_zero(),
    )
    &&& r matches Ok(v) ==> (v.mantissa != 0 ==> v.negative == (left.negative != right.negative))
    &&& left.mantissa != 0 && right.mantissa != 0 && product_fits(left, right) ==> r == Ok::<
        DecimalValue,
        CalcError,
    >(exact_product(left, right))
}

/// `r` is what dividing `left` by `right` gives: `Division by zero` for a
/// zero divisor, zero for a zero dividend, a result negative exactly where
/// the signs differ, and the exact quotient where `right` divides `left`.
pub open spec fn evaluates_quotient(left: DecimalValue, right: DecimalValue, r: Result<DecimalValue, CalcError>) -> bool {
    &&& right.mantissa == 0 ==> r == Err::<DecimalValue, CalcError>(CalcError::DivisionByZero)
    &&& left.mantissa == 0 && right.mantissa != 0 ==> r == Ok::<DecimalValue, CalcError>(
        DecimalValue::spec_zero(),
    )
    &&& r matches Ok(v) ==> (v.mantissa != 0 ==> v.negative == (left.negative != right.negative))
    &&& quotient_exact(left, right) ==> r == Ok::<DecimalValue, CalcError>(exact_quotient(left, right))
}

/// The display showing `v`.
pub open spec fn show_decimal(m: CalcModel, v: DecimalValue) -> CalcModel {
    CalcModel { negative: v.negative, text: decimal_text(v), ..m }
}

/// The display back at `0`, positive.
pub open spec fn cleared_input(m: CalcModel) -> CalcModel {
    CalcModel { negative: false, text: seq!['0'], ..m }
}

pub open spec fn spec_clear_entry(m: CalcModel) -> CalcModel {
    CalcModel { error: None, ..cleared_input(m) }
}

pub open spec fn spec_clear(m: CalcModel) -> CalcModel {
    CalcModel { memory: DecimalValue::spec_zero(), mode: CalculatorMode::Input, ..spec_clear_entry(m) }
}

/// The `=` step: the result goes to the display and nothing is pending, or
/// the error is shown and the state stays.
pub open spec fn spec_enter(m: CalcModel) -> CalcModel {
    match spec_evaluate(m.mode, m.memory, display_value(m)) {
        Ok(v) => CalcModel { mode: CalculatorMode::Input, ..show_decimal(m, v) },
        Err(e) => CalcModel { error: Some(e), ..m },
    }
}

/// The display replaced by a hundredth of it.
pub open spec fn spec_percentage(m: CalcModel) -> CalcModel {
    show_decimal(m, decimal_checked_div(display_value(m), hundred()).unwrap())
}

/// An operator key: from `Input` the display moves to the memory first;
/// then the operation becomes pending, or `=` computes.
pub open spec fn spec_operator(m: CalcModel, b: Button) -> CalcModel {
    let m1 = if m.mode == CalculatorMode::Input {
        CalcModel { memory: display_value(m), ..cleared_input(m) }
    } else {
        m
    };
    match b {
        Button::Divide => CalcModel { mode: CalculatorMode::Division, ..m1 },
        Button::Multiply => CalcModel { mode: CalculatorMode::Multiplication, ..m1 },
        Button::Minus => CalcModel { mode: CalculatorMode::Subtraction, ..m1 },
        Button::Plus => CalcModel { mode: CalculatorMode::Addition, ..m1 },
        Button::Evaluate => spec_enter(m1),
        _ => m1,
    }
}

/// What a key press does to the state.
pub open spec fn spec_press(m: CalcModel, b: Button) -> CalcModel {
    match b.spec_button_type() {
        ButtonType::Operator => spec_operator(m, b),
        ButtonType::Other => match b {
            Button::Clear => spec_clear(m),
            Button::ClearEntry => spec_clear_entry(m),
            Button::SignChange => CalcModel { negative: !m.negative, ..m },
            Button::Period => CalcModel { text: text_after_point(m.text), ..m },
            Button::Percentage => spec_percentage(m),
            _ => m,
        },
        ButtonType::Number => match b {
            Button::Number(d) => if digit_count(m.text) < MAX_DIGITS {
                CalcModel { text: text_after_digit(m.text, d), ..m }
            } else {
                m
            },
            _ => m,
        },
    }
}

/// Backspace: the last character of the display goes.
pub open spec fn spec_remove_char(m: CalcModel) -> CalcModel {
    CalcModel { text: text_after_removal(m.text), ..m }
}

/// A paste: text that `Decimal::from_str` reads goes to the display, other
/// text shows `Invalid Input`.
pub open spec fn spec_paste(m: CalcModel, parsed: Option<DecimalValue>) -> CalcModel {
    match parsed {
        Some(v) => show_decimal(m, v),
        None => CalcModel { error: Some(CalcError::InvalidInput), ..m },
    }
}

/// What the display shows: the error, where there is one, or the number.
pub open spec fn spec_output(m: CalcModel) -> Seq<char> {
    match m.error {
        Some(e) => e.spec_message(),
        None => (if m.negative {
            seq!['-']
        } else {
            Seq::empty()
        }) + m.text,
    }
}

/// The invariant of a calculator state: the display holds a numeral that a
/// `Decimal` reads exactly, and the memory fits a `Decimal`.
pub open spec fn model_wf(m: CalcModel) -> bool {
    &&& crate::decimal::fits_decimal(m.text)
    &&& m.memory.wf()
}

/// A calculator: the display, the error on show, the memory and the pending
/// operation.
pub struct Calculator {
    input: DisplayNumber,
    error: Option<CalcError>,
    memory: DecimalValue,
    mode: CalculatorMode,
}

impl View for Calculator {
    type V = CalcModel;

    closed spec fn view(&self) -> CalcModel {
        CalcModel {
            negative: self.input.is_negative(),
            text: self.input.text(),
            error: self.error,
            memory: self.memory,
            mode: self.mode,
        }
    }
}

impl Calculator {
    /// The calculator's invariant.
    #[verifier::type_invariant]
    spec fn wf(&self) -> bool {
        model_wf(self@)
    }

    /// Takes the display out, leaving a cleared one in its place.
    fn take_input(&mut self) -> (n: DisplayNumber)
        ensures
            n.text() == old(self)@.text,
            n.is_negative() == old(self)@.negative,
            final(self)@ == cleared_input(old(self)@),
    {
        proof {
            use_type_invariant(&*self);
        }
        let mut n = DisplayNumber::default();
        std::mem::swap(&mut n, &mut self.input);
        n
    }

    /// Clears the display and the error.
    pub fn clear_entry(&mut self)
        ensures
            final(self)@ == spec_clear_entry(old(self)@),
            final(self)@.text == seq!['0'],
            !final(self)@.negative,
            final(self)@.error is None,
            final(self)@.memory == old(self)@.memory,
            final(self)@.mode == old(self)@.mode,
    {
        proof {
            use_type_invariant(&*self);
        }
        let mut input = self.take_input();
        input.clear();
        self.input = input;
        self.error = None;
    }

    /// Resets everything: display, error, memory and pending operation.
    pub fn clear(&mut self)
        ensures
            final(self)@ == spec_clear(old(self)@),
    {
        proof {
            use_type_invariant(&*self);
        }
        self.memory = DecimalValue::zero();
        self.mode = CalculatorMode::Input;
        self.clear_entry();
    }

    /// The pending operation applied to the memory and the display.
    pub fn evaluate(&self) -> (r: Result<DecimalValue, CalcError>)
        ensures
            r == spec_evaluate(self@.mode, self@.memory, display_value(self@)),
            r matches Ok(v) ==> v.wf(),
            // With nothing pending, the memory.
            self@.mode == CalculatorMode::Input ==> r == Ok::<DecimalValue, CalcError>(self@.memory),
            // A sum: adding zero changes nothing, and small operands add exactly.
            self@.mode == CalculatorMode::Addition ==> evaluates_sum(self@.memory, display_value(self@), r),
            // A difference: subtracting zero changes nothing, zero minus `x` is
            // `-x`, and small operands subtract exactly.
            self@.mode == CalculatorMode::Subtraction ==> evaluates_difference(
                self@.memory,
                display_value(self@),
                r,
            ),
            // A product: zero where an operand is, negative exactly where one
            // operand is, and the product of the mantissas where it fits.
            self@.mode == CalculatorMode::Multiplication ==> evaluates_product(
                self@.memory,
                display_value(self@),
                r,
            ),
            // A quotient: refused for a zero display, zero for a zero memory,
            // negative exactly where one operand is, and exact where the
            // display divides the memory.
            self@.mode == CalculatorMode::Division ==> evaluates_quotient(
                self@.memory,
                display_value(self@),
                r,
            ),
    {
        proof {
            use_type_invariant(self);
        }
        let left = self.memory;
        let right = self.input.to_decimal();
        match self.mode {
            CalculatorMode::Input => Ok(left),
            CalculatorMode::Addition => match checked_add(&left, &right) {
                Some(v) => Ok(v),
                None => Err(CalcError::AdditionOverflow),
            },
            CalculatorMode::Subtraction => match checked_sub(&left, &right) {
                Some(v) => Ok(v),
                None => Err(CalcError::SubtractionOverflow),
            },
            CalculatorMode::Multiplication => match checked_mul(&left, &right) {
                Some(v) => Ok(v),
                None => Err(CalcError::MultiplicationOverflow),
            },
            CalculatorMode::Division => {
                if right.is_zero() {
                    return Err(CalcError::DivisionByZero);
                }
                match checked_div(&left, &right) {
                    Some(v) => Ok(v),
                    None => Err(CalcError::DivisionOverflow),
                }
            },
        }
    }

    /// Shows `value` on the display.
    fn show(&mut self, value: DecimalValue)
        requires
            value.wf(),
        ensures
            final(self)@ == show_decimal(old(self)@, value),
            same_number(display_value(final(self)@), value),
    {
        proof {
            use_type_invariant(&*self);
        }
        let mut input = self.take_input();
        input.set_decimal(value);
        proof {
            crate::display_number::law_shown_decimal_reads_back(value);
        }
        self.input = input;
    }

    /// The `=` step: shows the result and ends the pending operation, or
    /// shows the error.
    pub fn enter(&mut self)
        ensures
            final(self)@ == spec_enter(old(self)@),
    {
        proof {
            use_type_invariant(&*self);
        }
        match self.evaluate() {
            Ok(value) => {
                self.show(value);
                proof {
                    use_type_invariant(&*self);
                }
                self.mode = CalculatorMode::Input;
            },
            Err(err) => {
                self.error = Some(err);
            },
        }
    }

    /// Replaces the display by a hundredth of it.
    pub fn input_to_percentage(&mut self)
        ensures
            decimal_checked_div(display_value(old(self)@), hundred()) is Some,
            final(self)@ == spec_percentage(old(self)@),
            same_number(
                display_value(final(self)@),
                decimal_checked_div(display_value(old(self)@), hundred()).unwrap(),
            ),
            evaluates_quotient(
                display_value(old(self)@),
                hundred(),
                Ok::<DecimalValue, CalcError>(
                    decimal_checked_div(display_value(old(self)@), hundred()).unwrap(),
                ),
            ),
            final(self)@.memory == old(self)@.memory,
            final(self)@.mode == old(self)@.mode,
            final(self)@.error == old(self)@.error,
    {
        proof {
            use_type_invariant(&*self);
        }
        let percentage = self.input.to_decimal();
        let hundred = DecimalValue { negative: false, mantissa: 100, scale: 0 };
        match checked_div(&percentage, &hundred) {
            Some(value) => self.show(value),
            None => {},
        }
    }

    /// Acts on a key press.
    pub fn on_button_press(&mut self, button: Button)
        ensures
            final(self)@ == spec_press(old(self)@, button),
            button == Button::Percentage ==> decimal_checked_div(
                display_value(old(self)@),
                hundred(),
            ) is Some,
            is_operation_key(button) && old(self)@.mode == CalculatorMode::Input ==> final(self)@.memory
                == display_value(old(self)@) && final(self)@.text == seq!['0'] && !final(self)@.negative,
            is_operation_key(button) ==> final(self)@.mode == operation_of(button),
            button == Button::SignChange ==> final(self)@.negative == !old(self)@.negative
                && final(self)@.text == old(self)@.text && final(self)@.memory == old(self)@.memory
                && final(self)@.mode == old(self)@.mode && final(self)@.error == old(self)@.error,
            button == Button::ClearEntry ==> final(self)@.text == seq!['0'] && !final(self)@.negative
                && final(self)@.error is None && final(self)@.memory == old(self)@.memory
                && final(self)@.mode == old(self)@.mode,
    {
        proof {
            use_type_invariant(&*self);
        }
        match button.button_type() {
            ButtonType::Operator => {
                if self.mode == CalculatorMode::Input {
                    self.memory = self.input.to_decimal();
                    let mut input = self.take_input();
                    input.clear();
                    self.input = input;
                }
                match button {
                    Button::Divide => self.mode = CalculatorMode::Division,
                    Button::Multiply => self.mode = CalculatorMode::Multiplication,
                    Button::Minus => self.mode = CalculatorMode::Subtraction,
                    Button::Plus => self.mode = CalculatorMode::Addition,
                    Button::Evaluate => self.enter(),
                    _ => {},
                }
            },
            ButtonType::Other => {
                match button {
                    Button::Clear => self.clear(),
                    Button::ClearEntry => self.clear_entry(),
                    Button::SignChange => {
                        let mut input = self.take_input();
                        input.swap_sign();
                        self.input = input;
                    },
                    Button::Period => {
                        let mut input = self.take_input();
                        input.be_fractional();
                        self.input = input;
                    },
                    Button::Percentage => self.input_to_percentage(),
                    _ => {},
                }
            },
            ButtonType::Number => {
                let digits = self.input.digits_used();
                if digits < MAX_DIGITS {
                    if let Button::Number(digit) = button {
                        let mut input = self.take_input();
                        input.add_digit(digit);
                        proof {
                            lemma_short_numeral_fits(input.text());
                        }
                        self.input = input;
                    }
                }
            },
        }
    }

    /// Backspace: removes the last character of the display.
    pub fn remove_char(&mut self)
        ensures
            final(self)@ == spec_remove_char(old(self)@),
            old(self)@.text.len() > 1 ==> final(self)@.text == old(self)@.text.drop_last(),
            old(self)@.text.len() <= 1 ==> final(self)@.text == seq!['0'],
            final(self)@.negative == old(self)@.negative,
            final(self)@.memory == old(self)@.memory,
            final(self)@.mode == old(self)@.mode,
            final(self)@.error == old(self)@.error,
    {
        proof {
            use_type_invariant(&*self);
        }
        let mut input = self.take_input();
        input.remove_char();
        self.input = input;
    }

    /// A paste: text that `Decimal::from_str` reads goes to the display,
    /// other text shows `Invalid Input`.
    pub fn paste(&mut self, text: &str)
        ensures
            final(self)@ == spec_paste(old(self)@, decimal_from_str(text@)),
            crate::decimal::fits_decimal(text@) ==> final(self)@ == show_decimal(
                old(self)@,
                numeral_decimal(text@),
            ),
    {
        proof {
            use_type_invariant(&*self);
        }
        match decimal_parse(text) {
            Some(decimal) => self.show(decimal),
            None => self.error = Some(CalcError::InvalidInput),
        }
    }

    /// The text on the display: the error message where there is an error,
    /// the number otherwise.
    pub fn display_output(&self) -> (s: String)
        ensures
            s@ == spec_output(self@),
    {
        match self.error {
            Some(err) => err.message().to_owned(),
            None => self.input.to_string(),
        }
    }
}

impl Default for Calculator {
    /// A calculator showing `0`, with nothing in memory or pending.
    fn default() -> (c: Calculator)
        ensures
            c@ == (CalcModel {
                negative: false,
                text: seq!['0'],
                error: None,
                memory: DecimalValue::spec_zero(),
                mode: CalculatorMode::Input,
            }),
    {
        Calculator {
            memory: DecimalValue::zero(),
            error: None,
            input: DisplayNumber::default(),
            mode: CalculatorMode::Input,
        }
    }
}

/// The state of a new calculator.
pub open spec fn initial_model() -> CalcModel {
    CalcModel {
        negative: false,
        text: seq!['0'],
        error: None,
        memory: DecimalValue::spec_zero(),
        mode: CalculatorMode::Input,
    }
}

/// `C` brings back the state of a new calculator, whatever came before.
pub proof fn law_clear_resets(m: CalcModel)
    ensures
        spec_press(m, Button::Clear) == initial_model(),
{
}

/// `+/-` pressed twice changes nothing.
pub proof fn law_sign_change_twice(m: CalcModel)
    ensures
        spec_press(spec_press(m, Button::SignChange), Button::SignChange) == m,
{
}

/// An error stays on the display until `C` or `CE`.
pub proof fn law_error_stays(m: CalcModel, b: Button)
    requires
        m.error is Some,
        b != Button::Clear,
        b != Button::ClearEntry,
    ensures
        spec_press(m, b).error is Some,
        spec_output(spec_press(m, b)) == spec_press(m, b).error.unwrap().spec_message(),
{
}

/// `=` on a pending division by a display of zero shows `Division by zero`.
pub proof fn law_division_by_zero(m: CalcModel)
    requires
        m.mode == CalculatorMode::Division,
        display_value(m).mantissa == 0,
    ensures
        spec_press(m, Button::Evaluate).error == Some(CalcError::DivisionByZero),
        spec_output(spec_press(m, Button::Evaluate)) == "Division by zero"@,
{
}

/// A digit key never takes the display past `MAX_DIGITS` digits.
pub proof fn law_digit_limit(m: CalcModel, d: Digit)
    requires
        is_numeral(m.text),
    ensures
        digit_count(spec_press(m, Button::Number(d)).text) <= digit_count(m.text)
            || digit_count(spec_press(m, Button::Number(d)).text) <= MAX_DIGITS,
{
    let t = m.text;
    let c = d.spec_char();
    if digit_count(t) < MAX_DIGITS {
        if t == seq!['0'] {
            let u = seq![c];
            assert(!u.contains('.')) by {
                if u.contains('.') {
                    let i = choose|i: int| 0 <= i < u.len() && u[i] == '.';
                    assert(u[0] == c);
                }
            }
        } else {
            crate::numeral::lemma_contains_drop_last(t.push(c));
            assert(t.push(c).drop_last() =~= t);
        }
    }
}

/// An operation key (`+ - * /`) replaces the one pressed just before it.
pub proof fn law_operator_replaces_operator(m: CalcModel, first: Button, second: Button)
    requires
        first.spec_button_type() == ButtonType::Operator,
        second.spec_button_type() == ButtonType::Operator,
        first != Button::Evaluate,
        second != Button::Evaluate,
    ensures
        spec_press(spec_press(m, first), second) == spec_press(m, second),
{
}

/// Typing a key's label selects that key, for all keys but `C`, `CE` and
/// `+/-` (typed `C` is clear entry, and `c` and `s` stand for clear and the
/// sign).
pub proof fn law_typed_label(b: Button)
    requires
        b != Button::Clear,
        b != Button::ClearEntry,
        b != Button::SignChange,
    ensures
        spec_button_for_text(b.spec_label()) == Some(b),
{
    reveal_strlit("*");
    reveal_strlit("-");
    reveal_strlit("+");
    reveal_strlit("/");
    reveal_strlit("%");
    reveal_strlit(".");
    reveal_strlit("=");
}

/// The operation an operation key makes pending.
pub open spec fn operation_of(b: Button) -> CalculatorMode {
    match b {
        Button::Divide => CalculatorMode::Division,
        Button::Multiply => CalculatorMode::Multiplication,
        Button::Minus => CalculatorMode::Subtraction,
        Button::Plus => CalculatorMode::Addition,
        _ => CalculatorMode::Input,
    }
}

pub open spec fn is_operation_key(b: Button) -> bool {
    b == Button::Plus || b == Button::Minus || b == Button::Multiply || b == Button::Divide
}

/// An operation key pressed with nothing pending moves the number on the
/// display to the memory, leaves a positive `0` on the display whatever the
/// display's sign was, keeps the error, and makes the operation pending.
pub proof fn law_operator_moves_display(m: CalcModel, b: Button)
    requires
        m.mode == CalculatorMode::Input,
        is_operation_key(b),
    ensures
        spec_press(m, b).memory == display_value(m),
        spec_press(m, b).text == seq!['0'],
        !spec_press(m, b).negative,
        spec_press(m, b).error == m.error,
        spec_press(m, b).mode == operation_of(b),
        spec_output(spec_press(m, b)) == (match m.error {
            Some(e) => e.spec_message(),
            None => seq!['0'],
        }),
{
    assert(Seq::<char>::empty() + seq!['0'] =~= seq!['0']);
}

/// With an operation pending, an operation key only replaces it: memory,
/// display and error stay.
pub proof fn law_operator_when_pending(m: CalcModel, b: Button)
    requires
        m.mode != CalculatorMode::Input,
        is_operation_key(b),
    ensures
        spec_press(m, b).memory == m.memory,
        spec_press(m, b).text == m.text,
        spec_press(m, b).negative == m.negative,
        spec_press(m, b).error == m.error,
        spec_press(m, b).mode == operation_of(b),
{
}

/// `CE` leaves a positive `0` on the display and no error, whatever the
/// display's sign was; memory and pending operation stay.
pub proof fn law_clear_entry(m: CalcModel)
    ensures
        spec_press(m, Button::ClearEntry).text == seq!['0'],
        !spec_press(m, Button::ClearEntry).negative,
        spec_press(m, Button::ClearEntry).error is None,
        spec_press(m, Button::ClearEntry).memory == m.memory,
        spec_press(m, Button::ClearEntry).mode == m.mode,
        spec_output(spec_press(m, Button::ClearEntry)) == seq!['0'],
{
    assert(Seq::<char>::empty() + seq!['0'] =~= seq!['0']);
}

/// `+/-`, in every mode, flips the sign of the display and changes nothing
/// else.
pub proof fn law_sign_change(m: CalcModel)
    ensures
        spec_press(m, Button::SignChange).negative == !m.negative,
        spec_press(m, Button::SignChange).text == m.text,
        spec_press(m, Button::SignChange).memory == m.memory,
        spec_press(m, Button::SignChange).mode == m.mode,
        spec_press(m, Button::SignChange).error == m.error,
        display_value(spec_press(m, Button::SignChange)) == signed(numeral_decimal(m.text), !m.negative),
{
}

/// Backspace removes exactly the last character of the display, leaving `0`
/// where one character was left, and changes nothing else.
pub proof fn law_backspace(m: CalcModel)
    requires
        is_numeral(m.text),
    ensures
        m.text.len() > 1 ==> spec_remove_char(m).text == m.text.drop_last(),
        m.text.len() > 1 ==> spec_remove_char(m).text.len() == m.text.len() - 1,
        m.text.len() == 1 ==> spec_remove_char(m).text == seq!['0'],
        spec_remove_char(m).negative == m.negative,
        spec_remove_char(m).memory == m.memory,
        spec_remove_char(m).mode == m.mode,
        spec_remove_char(m).error == m.error,
{
}

/// Backspace after a typed digit gives back the calculator as it was.
pub proof fn law_backspace_undoes_digit(m: CalcModel, d: Digit)
    requires
        is_numeral(m.text),
        digit_count(m.text) < MAX_DIGITS,
    ensures
        spec_remove_char(spec_press(m, Button::Number(d))) == m,
{
    crate::display_number::law_removal_undoes_digit(m.text, d);
}

/// Showing a decimal puts the same number on the display and touches
/// nothing else.
pub proof fn law_show_decimal(m: CalcModel, v: DecimalValue)
    requires
        v.wf(),
    ensures
        same_number(display_value(show_decimal(m, v)), v),
        crate::decimal::fits_decimal(show_decimal(m, v).text),
        show_decimal(m, v).memory == m.memory,
        show_decimal(m, v).mode == m.mode,
        show_decimal(m, v).error == m.error,
{
    crate::display_number::law_shown_decimal_reads_back(v);
}

/// `=` with an operation pending: where the operation gives a number, the
/// display shows that number, nothing is pending and the memory and error
/// stay; where it fails, its error is shown and nothing else changes.
pub proof fn law_equals_shows_result(m: CalcModel)
    requires
        m.mode != CalculatorMode::Input,
    ensures
        spec_evaluate(m.mode, m.memory, display_value(m)) matches Ok(v) ==> {
            &&& v.wf() ==> same_number(display_value(spec_press(m, Button::Evaluate)), v)
            &&& spec_press(m, Button::Evaluate).mode == CalculatorMode::Input
            &&& spec_press(m, Button::Evaluate).memory == m.memory
            &&& spec_press(m, Button::Evaluate).error == m.error
        },
        spec_evaluate(m.mode, m.memory, display_value(m)) matches Err(e) ==> {
            &&& spec_press(m, Button::Evaluate).error == Some(e)
            &&& spec_press(m, Button::Evaluate).text == m.text
            &&& spec_press(m, Button::Evaluate).negative == m.negative
            &&& spec_press(m, Button::Evaluate).memory == m.memory
            &&& spec_press(m, Button::Evaluate).mode == m.mode
        },
{
    if let Ok(v) = spec_evaluate(m.mode, m.memory, display_value(m)) {
        if v.wf() {
            law_show_decimal(m, v);
        }
    }
}

/// The point key adds a point where there is none, keeps the number on the
/// display, and touches nothing else.
pub proof fn law_period(m: CalcModel)
    requires
        is_numeral(m.text),
    ensures
        spec_press(m, Button::Period).text.contains('.'),
        m.text.contains('.') ==> spec_press(m, Button::Period).text == m.text,
        !m.text.contains('.') ==> spec_press(m, Button::Period).text == m.text.push('.'),
        display_value(spec_press(m, Button::Period)) == display_value(m),
        spec_press(m, Button::Period).negative == m.negative,
        spec_press(m, Button::Period).memory == m.memory,
        spec_press(m, Button::Period).mode == m.mode,
        spec_press(m, Button::Period).error == m.error,
{
    if !m.text.contains('.') {
        let t = m.text.push('.');
        assert(t[m.text.len() as int] == '.');
        assert(t.drop_last() =~= m.text);
        crate::numeral::lemma_fraction_len_no_point(m.text);
    }
}

/// A digit key under the limit writes the digit at the end of the display
/// (in place of a lone `0`); at the limit it does nothing. Nothing else
/// changes.
pub proof fn law_digit_key(m: CalcModel, d: Digit)
    ensures
        digit_count(m.text) < MAX_DIGITS ==> spec_press(m, Button::Number(d)).text.last() == d.spec_char(),
        digit_count(m.text) < MAX_DIGITS && m.text != seq!['0'] ==> spec_press(
            m,
            Button::Number(d),
        ).text.drop_last() == m.text,
        digit_count(m.text) < MAX_DIGITS && m.text == seq!['0'] ==> spec_press(
            m,
            Button::Number(d),
        ).text.len() == 1,
        digit_count(m.text) >= MAX_DIGITS ==> spec_press(m, Button::Number(d)) == m,
        spec_press(m, Button::Number(d)).negative == m.negative,
        spec_press(m, Button::Number(d)).memory == m.memory,
        spec_press(m, Button::Number(d)).mode == m.mode,
        spec_press(m, Button::Number(d)).error == m.error,
{
    if digit_count(m.text) < MAX_DIGITS && m.text != seq!['0'] {
        assert(m.text.push(d.spec_char()).drop_last() =~= m.text);
    }
}

} // verus!

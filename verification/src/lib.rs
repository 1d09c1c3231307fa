//! The number entry and arithmetic of a desktop calculator.
//!
//! `DisplayNumber` holds what the user typed as text, so that the display
//! shows exactly what was entered; `Calculator` is the state machine behind
//! the keypad. Decimal arithmetic is done by `rust_decimal`.

pub mod calculator;
pub mod decimal;
pub mod digit;
pub mod display_number;
pub mod numeral;

pub use calculator::{
    button_for_text, Button, ButtonType, CalcError, CalcModel, Calculator, CalculatorMode,
    MAX_DIGITS,
};
pub use decimal::DecimalValue;
pub use digit::Digit;
pub use display_number::DisplayNumber;

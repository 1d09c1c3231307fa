# hesap

The logic of a desktop calculator, verified with Verus.

- `src/numeral.rs`: numerals as the display writes them (`0`, `23.`, `0.235`), their value, and how a decimal is written out.
- `src/decimal.rs`: `DecimalValue`, the sign, mantissa and scale of a `rust_decimal::Decimal`, and the trusted calls into `rust_decimal` (parsing, printing, checked arithmetic).
- `src/digit.rs`: the digit keys.
- `src/display_number.rs`: `DisplayNumber`, the typed text on the display.
- `src/calculator.rs`: `Calculator`, the keypad's state machine, with its model `CalcModel` and the laws over it.
- `app/main.rs`: the egui window, keyboard and clipboard handling, and the float views of the display.

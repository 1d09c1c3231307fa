use vstd::prelude::*;

verus! {

/// One of the ten decimal digits a keypad can enter.
#[derive(Debug, Clone, Copy, PartialEq, Eq, Structural)]
pub enum Digit {
    Zero,
    One,
    Two,
    Three,
    Four,
    Five,
    Six,
    Seven,
    Eight,
    Nine,
}

impl Digit {
    /// The numeric value of the digit, `0` to `9`.
    pub open spec fn spec_value(self) -> u8 {
        match self {
            Digit::Zero => 0,
            Digit::One => 1,
            Digit::Two => 2,
            Digit::Three => 3,
            Digit::Four => 4,
            Digit::Five => 5,
            Digit::Six => 6,
            Digit::Seven => 7,
            Digit::Eight => 8,
            Digit::Nine => 9,
        }
    }

    /// The character that writes the digit.
    pub open spec fn spec_char(self) -> char {
        match self {
            Digit::Zero => '0',
            Digit::One => '1',
            Digit::Two => '2',
            Digit::Three => '3',
            Digit::Four => '4',
            Digit::Five => '5',
            Digit::Six => '6',
            Digit::Seven => '7',
            Digit::Eight => '8',
            Digit::Nine => '9',
        }
    }

    pub fn value(self) -> (v: u8)
        ensures
            v == self.spec_value(),
            v <= 9,
    {
        match self {
            Digit::Zero => 0,
            Digit::One => 1,
            Digit::Two => 2,
            Digit::Three => 3,
            Digit::Four => 4,
            Digit::Five => 5,
            Digit::Six => 6,
            Digit::Seven => 7,
            Digit::Eight => 8,
            Digit::Nine => 9,
        }
    }

    /// The digit as a one-character string, as printed on its key.
    pub fn value_as_str(self) -> (s: &'static str)
        ensures
            s@ == seq![self.spec_char()],
    {
        match self {
            Digit::Zero => {
                proof { reveal_strlit("0"); }
                "0"
            },
            Digit::One => {
                proof { reveal_strlit("1"); }
                "1"
            },
            Digit::Two => {
                proof { reveal_strlit("2"); }
                "2"
            },
            Digit::Three => {
                proof { reveal_strlit("3"); }
                "3"
            },
            Digit::Four => {
                proof { reveal_strlit("4"); }
                "4"
            },
            Digit::Five => {
                proof { reveal_strlit("5"); }
                "5"
            },
            Digit::Six => {
                proof { reveal_strlit("6"); }
                "6"
            },
            Digit::Seven => {
                proof { reveal_strlit("7"); }
                "7"
            },
            Digit::Eight => {
                proof { reveal_strlit("8"); }
                "8"
            },
            Digit::Nine => {
                proof { reveal_strlit("9"); }
                "9"
            },
        }
    }
}

/// A digit's key writes its value.
pub proof fn law_digit_char_value(d: Digit)
    ensures
        d.spec_char() == crate::numeral::digit_char(d.spec_value() as nat),
        crate::numeral::char_value(d.spec_char()) == d.spec_value(),
{
}

} // verus!

//! The number on the calculator's display, held as the text the user typed.
//!
//! Whatever the type used for computing, the display keeps what was entered
//! (`0.`, `23.50`) instead of a value that would print differently.

use vstd::prelude::*;

use crate::decimal::{
    decimal_from_str, decimal_parse, decimal_to_chars, fits_decimal, lemma_render_fits,
    numeral_decimal, reading_stated, same_number, signed, stated_reading, DecimalValue,
};
use crate::digit::Digit;
use crate::numeral::{
    digit_count, digits_value, fraction_len, is_digit_char, is_numeral, lemma_contains_drop_last,
    lemma_zero_numeral, render_magnitude,
};

verus! {

/// A signed numeral: a sign flag and the digits typed, with at most one
/// point. The text is never empty; a cleared display reads `0`.
pub struct DisplayNumber {
    text: Vec<char>,
    negative: bool,
}

/// The text after a digit is typed: a lone `0` is replaced, anything else
/// grows by the digit.
pub open spec fn text_after_digit(text: Seq<char>, d: Digit) -> Seq<char> {
    if text == seq!['0'] {
        seq![d.spec_char()]
    } else {
        text.push(d.spec_char())
    }
}

/// The text after the last character is removed: removing the only one
/// leaves `0`.
pub open spec fn text_after_removal(text: Seq<char>) -> Seq<char> {
    if text.len() <= 1 {
        seq!['0']
    } else {
        text.drop_last()
    }
}

/// The text after the point key: a point is added where there is none yet.
pub open spec fn text_after_point(text: Seq<char>) -> Seq<char> {
    if text.contains('.') {
        text
    } else {
        text.push('.')
    }
}

/// A reading given the display's sign.
pub open spec fn signed_reading(r: Option<DecimalValue>, negative: bool) -> Option<DecimalValue> {
    match r {
        Some(v) => Some(signed(v, negative)),
        None => None,
    }
}

/// `Decimal::from_str` reads `new` as it reads `old`: the text is the same,
/// or both readings are stated by the contracts and agree.
pub open spec fn reading_kept(old: Seq<char>, new: Seq<char>) -> bool {
    ||| new == old
    ||| reading_stated(old) && reading_stated(new) && stated_reading(new) == stated_reading(old)
}

/// The text a decimal is shown as: the digits of its normalized magnitude.
pub open spec fn decimal_text(value: DecimalValue) -> Seq<char> {
    let v = value.spec_abs().spec_normalize();
    render_magnitude(v.mantissa as nat, v.scale as nat)
}

/// Appends a character to a string.
///
/// Trusted: `String::push` appends the character at the end.
#[verifier::external_body]
fn push_char(s: &mut String, c: char)
    ensures
        final(s)@ == old(s)@.push(c),
{
    s.push(c);
}

impl DisplayNumber {
    /// The typed text, without the sign.
    pub closed spec fn text(&self) -> Seq<char> {
        self.text@
    }

    pub closed spec fn is_negative(&self) -> bool {
        self.negative
    }

    /// The display's invariant: its text is a numeral.
    #[verifier::type_invariant]
    spec fn wf(&self) -> bool {
        is_numeral(self.text@)
    }

    /// What the display shows: a `-` for a negative sign, then the text.
    pub open spec fn shown(&self) -> Seq<char> {
        (if self.is_negative() {
            seq!['-']
        } else {
            Seq::empty()
        }) + self.text()
    }

    /// The text is short enough that `to_decimal` reads it exactly.
    pub open spec fn fits(&self) -> bool {
        fits_decimal(self.text())
    }

    /// `to_decimal` has a value to give: `Decimal::from_str` reads the text.
    pub open spec fn parses(&self) -> bool {
        decimal_from_str(self.text()) is Some
    }

    /// The value `to_decimal` gives.
    pub open spec fn spec_decimal(&self) -> DecimalValue {
        signed(decimal_from_str(self.text()).unwrap(), self.is_negative())
    }

    /// The exact value of a text that fits: its digits over `10^fraction
    /// digits`, with the display's sign.
    pub open spec fn value(&self) -> DecimalValue {
        signed(numeral_decimal(self.text()), self.is_negative())
    }

    /// A display of at most 28 digits fits.
    pub proof fn lemma_short_fits(&self)
        requires
            is_numeral(self.text()),
            digit_count(self.text()) <= 28,
        ensures
            self.fits(),
    {
        crate::decimal::lemma_short_numeral_fits(self.text());
    }

    /// Resets the display to `0`, positive.
    pub fn clear(&mut self)
        ensures
            final(self).text() == seq!['0'],
            digit_count(final(self).text()) == 1,
            !final(self).is_negative(),
            final(self).fits(),
    {
        proof {
            lemma_zero_numeral();
            crate::decimal::lemma_short_numeral_fits(seq!['0']);
        }
        self.text = zero_text();
        self.negative = false;
    }

    /// Takes the text out, leaving a `0` in its place.
    fn take_text(&mut self) -> (t: Vec<char>)
        ensures
            t@ == old(self).text(),
            final(self).text() == seq!['0'],
            final(self).is_negative() == old(self).is_negative(),
    {
        proof {
            lemma_zero_numeral();
        }
        let mut t = zero_text();
        std::mem::swap(&mut t, &mut self.text);
        t
    }

    fn has_point(&self) -> (b: bool)
        ensures
            b == self.text().contains('.'),
    {
        let mut i: usize = 0;
        while i < self.text.len()
            invariant
                i <= self.text@.len(),
                forall|j: int| 0 <= j < i ==> self.text@[j] != '.',
            decreases self.text@.len() - i,
        {
            if self.text[i] == '.' {
                return true;
            }
            i = i + 1;
        }
        false
    }

    /// How many digits the display holds, the point not counted.
    pub fn digits_used(&self) -> (n: usize)
        ensures
            n == digit_count(self.text()),
    {
        proof {
            use_type_invariant(self);
        }
        let fractional: usize = if self.has_point() {
            1
        } else {
            0
        };
        self.text.len() - fractional
    }

    /// Adds the decimal point, unless there is one already.
    pub fn be_fractional(&mut self)
        ensures
            final(self).text() == text_after_point(old(self).text()),
            final(self).is_negative() == old(self).is_negative(),
            digit_count(final(self).text()) == digit_count(old(self).text()),
            final(self).value() == old(self).value(),
            old(self).fits() ==> final(self).fits(),
            reading_kept(old(self).text(), final(self).text()),
    {
        proof {
            use_type_invariant(&*self);
        }
        if !self.has_point() {
            proof {
                lemma_push_point(self.text@);
                law_point_keeps_reading(self.text@);
            }
            let mut text = self.take_text();
            text.push('.');
            self.text = text;
        }
    }

    /// Types a digit: it replaces a lone `0` and is appended otherwise.
    pub fn add_digit(&mut self, digit: Digit)
        ensures
            final(self).text() == text_after_digit(old(self).text(), digit),
            final(self).is_negative() == old(self).is_negative(),
            is_numeral(final(self).text()),
            digit_count(final(self).text()) <= digit_count(old(self).text()) + 1,
    {
        proof {
            use_type_invariant(&*self);
        }
        let ch = match digit {
            Digit::Zero => '0',
            Digit::One => '1',
            Digit::Two => '2',
            Digit::Three => '3',
            Digit::Four => '4',
            Digit::Five => '5',
            Digit::Six => '6',
            Digit::Seven => '7',
            Digit::Eight => '8',
            Digit::Nine => '9',
        };
        proof {
            lemma_push_digit(self.text@, ch);
        }
        if self.text.len() == 1 && self.text[0] == '0' {
            proof {
                assert(self.text@ =~= seq!['0']);
            }
            let mut text = Vec::new();
            text.push(ch);
            proof {
                assert(text@ =~= seq![ch]);
            }
            self.text = text;
        } else {
            let mut text = self.take_text();
            text.push(ch);
            self.text = text;
        }
    }

    /// Removes the last character; removing the only one leaves `0`.
    pub fn remove_char(&mut self)
        ensures
            final(self).text() == text_after_removal(old(self).text()),
            final(self).is_negative() == old(self).is_negative(),
            digit_count(final(self).text()) <= digit_count(old(self).text()),
            old(self).fits() ==> final(self).fits(),
    {
        proof {
            use_type_invariant(&*self);
        }
        if self.text.len() <= 1 {
            proof {
                lemma_zero_numeral();
                crate::decimal::lemma_short_numeral_fits(seq!['0']);
                lemma_single_digit(self.text@);
            }
            self.text = zero_text();
        } else {
            proof {
                lemma_drop_last_numeral(self.text@);
                lemma_drop_last_fits(self.text@);
            }
            let mut text = self.take_text();
            text.pop();
            self.text = text;
        }
    }

    /// Flips the sign.
    pub fn swap_sign(&mut self)
        ensures
            final(self).text() == old(self).text(),
            final(self).is_negative() == !old(self).is_negative(),
    {
        proof {
            use_type_invariant(&*self);
        }
        self.negative = !self.negative;
    }

    /// The text as a string, without the sign.
    fn text_string(&self) -> (s: String)
        ensures
            s@ == self.text(),
    {
        let mut s = String::new();
        let mut i: usize = 0;
        while i < self.text.len()
            invariant
                i <= self.text@.len(),
                s@ == self.text@.take(i as int),
            decreases self.text@.len() - i,
        {
            push_char(&mut s, self.text[i]);
            i = i + 1;
            proof {
                assert(s@ =~= self.text@.take(i as int));
            }
        }
        proof {
            assert(self.text@.take(i as int) =~= self.text@);
        }
        s
    }

    /// The value of the display, `None` where `Decimal::from_str` refuses its
    /// text.
    pub fn try_to_decimal(&self) -> (r: Option<DecimalValue>)
        ensures
            r == (if self.parses() {
                Some(self.spec_decimal())
            } else {
                None
            }),
            r matches Some(d) ==> d.wf(),
            self.fits() ==> r == Some(self.value()),
            reading_stated(self.text()) ==> r == signed_reading(
                stated_reading(self.text()),
                self.is_negative(),
            ),
    {
        let s = self.text_string();
        match decimal_parse(s.as_str()) {
            Some(v) => {
                if self.negative {
                    Some(v.neg())
                } else {
                    Some(v)
                }
            },
            None => None,
        }
    }

    /// The value of the display: its text read by `Decimal::from_str`, with
    /// its sign.
    pub fn to_decimal(&self) -> (r: DecimalValue)
        requires
            self.parses() || self.fits(),
        ensures
            self.parses(),
            r == self.spec_decimal(),
            r.wf(),
            self.fits() ==> r == self.value(),
    {
        match self.try_to_decimal() {
            Some(v) => v,
            None => DecimalValue::zero(),
        }
    }

    /// Shows a decimal: its sign, and the digits of its normalized magnitude.
    pub fn set_decimal(&mut self, value: DecimalValue)
        requires
            value.wf(),
        ensures
            final(self).is_negative() == value.negative,
            final(self).text() == decimal_text(value),
            final(self).fits(),
            final(self).value() == signed(value.spec_abs().spec_normalize(), value.negative),
    {
        proof {
            use_type_invariant(&*self);
        }
        self.negative = value.is_sign_negative();
        let v = value.abs().normalize();
        proof {
            lemma_render_fits(v);
        }
        self.text = decimal_to_chars(&v);
    }

    /// Shows a numeral written elsewhere (such as a formatted float) with the
    /// given sign. Text that is not a numeral is refused, and the display
    /// kept.
    pub fn set_numeral(&mut self, negative: bool, text: &str) -> (accepted: bool)
        ensures
            accepted == is_numeral(text@),
            accepted ==> final(self).text() == text@ && final(self).is_negative() == negative,
            !accepted ==> final(self).text() == old(self).text() && final(self).is_negative()
                == old(self).is_negative(),
    {
        let n = text.unicode_len();
        if n == 0 {
            return false;
        }
        let mut chars: Vec<char> = Vec::new();
        let mut seen_point = false;
        let mut i: usize = 0;
        while i < n
            invariant
                self.text() == old(self).text(),
                self.is_negative() == old(self).is_negative(),
                n == text@.len(),
                i <= n,
                chars@ == text@.take(i as int),
                seen_point == chars@.contains('.'),
                i > 0 ==> is_digit_char(text@[0]),
                forall|j: int| 0 <= j < i ==> is_digit_char(#[trigger] text@[j]) || text@[j] == '.',
                forall|j: int, k: int|
                    0 <= j < k < i && #[trigger] text@[j] == '.' ==> #[trigger] text@[k] != '.',
            decreases n - i,
        {
            let c = text.get_char(i);
            if c == '.' {
                if seen_point || i == 0 {
                    proof {
                        if i > 0 {
                            let j = choose|j: int| 0 <= j < chars@.len() && chars@[j] == '.';
                            assert(text@[j] == '.');
                            assert(text@[i as int] == '.');
                            assert(!is_numeral(text@));
                        } else {
                            assert(!is_digit_char(text@[0]));
                        }
                    }
                    return false;
                }
                seen_point = true;
            } else if !('0' <= c && c <= '9') {
                proof {
                    assert(!is_digit_char(text@[i as int]) && text@[i as int] != '.');
                    assert(!is_numeral(text@));
                }
                return false;
            }
            chars.push(c);
            proof {
                assert(chars@ =~= text@.take(i + 1));
                lemma_contains_drop_last(chars@);
                assert(chars@.drop_last() =~= text@.take(i as int));
                assert forall|j: int, k: int|
                    0 <= j < k < i + 1 && #[trigger] text@[j] == '.' implies #[trigger] text@[k] != '.' by {
                    if k == i && c == '.' {
                        assert(chars@.drop_last()[j] == '.');
                    }
                }
            }
            i = i + 1;
        }
        proof {
            assert(chars@ =~= text@);
        }
        self.text = chars;
        self.negative = negative;
        true
    }

    /// The text of the display, a `-` in front of a negative number.
    pub fn to_string(&self) -> (s: String)
        ensures
            s@ == self.shown(),
    {
        let mut s = String::new();
        if self.negative {
            push_char(&mut s, '-');
        }
        let mut i: usize = 0;
        let ghost start = s@;
        while i < self.text.len()
            invariant
                i <= self.text@.len(),
                start == (if self.negative {
                    seq!['-']
                } else {
                    Seq::<char>::empty()
                }),
                s@ == start + self.text@.take(i as int),
            decreases self.text@.len() - i,
        {
            push_char(&mut s, self.text[i]);
            i = i + 1;
            proof {
                assert(s@ =~= start + self.text@.take(i as int));
            }
        }
        proof {
            assert(self.text@.take(i as int) =~= self.text@);
        }
        s
    }
}

/// The text of a cleared display.
fn zero_text() -> (t: Vec<char>)
    ensures
        t@ == seq!['0'],
{
    let mut t = Vec::new();
    t.push('0');
    proof {
        assert(t@ =~= seq!['0']);
    }
    t
}

/// A point after a numeral without one gives a numeral of the same value.
proof fn lemma_push_point(s: Seq<char>)
    requires
        is_numeral(s),
        !s.contains('.'),
    ensures
        is_numeral(s.push('.')),
        digits_value(s.push('.')) == digits_value(s),
        fraction_len(s.push('.')) == 0,
        fraction_len(s) == 0,
        digit_count(s.push('.')) == digit_count(s),
        fits_decimal(s) ==> fits_decimal(s.push('.')),
{
    let t = s.push('.');
    assert(t.drop_last() =~= s);
    assert forall|i: int, j: int| 0 <= i < j < t.len() && #[trigger] t[i] == '.' implies #[trigger] t[j] != '.' by {
        if j < s.len() {
            assert(t[j] == s[j]);
        }
        assert(t[i] == s[i]);
    }
    assert(t[0] == s[0]);
    assert(forall|i: int| 0 <= i < s.len() ==> t[i] == s[i]);
    assert(t.last() == '.');
    assert(t[s.len() as int] == '.');
    crate::numeral::lemma_fraction_len_no_point(s);
}

/// A digit typed after a numeral gives a numeral with one more digit.
proof fn lemma_push_digit(s: Seq<char>, c: char)
    requires
        is_numeral(s),
        is_digit_char(c),
    ensures
        is_numeral(s.push(c)),
        is_numeral(seq![c]),
        digit_count(s.push(c)) == digit_count(s) + 1,
        digit_count(seq![c]) == 1,
{
    let t = s.push(c);
    assert(t.drop_last() =~= s);
    assert(t[0] == s[0]);
    assert(forall|i: int| 0 <= i < s.len() ==> t[i] == s[i]);
    assert forall|i: int, j: int| 0 <= i < j < t.len() && #[trigger] t[i] == '.' implies #[trigger] t[j] != '.' by {
        if j < s.len() {
            assert(t[j] == s[j]);
        }
        assert(t[i] == s[i]);
    }
    lemma_contains_drop_last(t);
    let u = seq![c];
    assert(!u.contains('.')) by {
        if u.contains('.') {
            let i = choose|i: int| 0 <= i < u.len() && u[i] == '.';
            assert(u[0] == c);
        }
    }
}

/// Removing the last of several characters of a numeral leaves a numeral
/// with no more digits.
proof fn lemma_drop_last_numeral(s: Seq<char>)
    requires
        s.len() > 1,
        is_numeral(s),
    ensures
        is_numeral(s.drop_last()),
        digit_count(s.drop_last()) <= digit_count(s),
{
    let t = s.drop_last();
    assert(t[0] == s[0]);
    assert(forall|i: int| 0 <= i < t.len() ==> t[i] == s[i]);
    assert forall|i: int, j: int| 0 <= i < j < t.len() && #[trigger] t[i] == '.' implies #[trigger] t[j] != '.' by {
        assert(t[i] == s[i]);
        assert(t[j] == s[j]);
    }
    lemma_contains_drop_last(s);
}

/// A one-character numeral is one digit.
proof fn lemma_single_digit(s: Seq<char>)
    requires
        s.len() == 1,
        is_numeral(s),
    ensures
        digit_count(s) == 1,
{
    assert(!s.contains('.')) by {
        if s.contains('.') {
            let i = choose|i: int| 0 <= i < s.len() && s[i] == '.';
            assert(i == 0);
        }
    }
}

/// Removing the last character of a numeral keeps it short enough to read.
proof fn lemma_drop_last_fits(s: Seq<char>)
    requires
        s.len() > 1,
        is_numeral(s),
    ensures
        fits_decimal(s) ==> fits_decimal(s.drop_last()),
{
    let p = s.drop_last();
    let c = s.last();
    assert(c == s[s.len() - 1]);
    if is_digit_char(c) {
        assert(digits_value(s) == digits_value(p) * 10 + crate::numeral::char_value(c));
    } else {
        assert(digits_value(s) == digits_value(p));
    }
    if c == '.' {
        assert(fraction_len(s) == 0);
        assert(!p.contains('.')) by {
            if p.contains('.') {
                let i = choose|i: int| 0 <= i < p.len() && p[i] == '.';
                assert(s[i] == '.');
            }
        }
        crate::numeral::lemma_fraction_len_no_point(p);
    } else if p.contains('.') {
        assert(fraction_len(s) == fraction_len(p) + 1);
    } else {
        crate::numeral::lemma_fraction_len_no_point(p);
    }
    assert(is_numeral(p)) by {
        assert(p[0] == s[0]);
        assert(forall|i: int| 0 <= i < p.len() ==> p[i] == s[i]);
    }
}

impl Default for DisplayNumber {
    /// A display reading `0`.
    fn default() -> (n: DisplayNumber)
        ensures
            n.text() == seq!['0'],
            digit_count(n.text()) == 1,
            !n.is_negative(),
            n.fits(),
    {
        proof {
            lemma_zero_numeral();
            crate::decimal::lemma_short_numeral_fits(seq!['0']);
        }
        DisplayNumber { text: zero_text(), negative: false }
    }
}

/// The point key does nothing the second time.
pub proof fn law_point_idempotent(text: Seq<char>)
    ensures
        text_after_point(text_after_point(text)) == text_after_point(text),
{
    if !text.contains('.') {
        assert(text.push('.')[text.len() as int] == '.');
    }
}

/// The point key keeps what `to_decimal` and `try_to_decimal` read: the
/// text is unchanged, or it was an integer numeral, read as before with the
/// point added (the same value where it fits, refused by both where not).
pub proof fn law_point_keeps_reading(text: Seq<char>)
    requires
        is_numeral(text),
    ensures
        reading_kept(text, text_after_point(text)),
{
    if !text.contains('.') {
        lemma_push_point(text);
        let t = text.push('.');
        assert(t.drop_last() =~= text);
        if fits_decimal(t) {
            assert(fits_decimal(text));
        }
    }
}

/// Backspace undoes a typed digit.
pub proof fn law_removal_undoes_digit(text: Seq<char>, d: Digit)
    requires
        is_numeral(text),
    ensures
        text_after_removal(text_after_digit(text, d)) == text,
{
    if text == seq!['0'] {
    } else {
        assert(text.push(d.spec_char()).drop_last() =~= text);
    }
}

/// A decimal put on the display reads back as the same number: the same
/// value, and the same sign unless it is zero. Only trailing zeros of its
/// fraction are lost.
pub proof fn law_shown_decimal_reads_back(value: DecimalValue)
    requires
        value.wf(),
    ensures
        fits_decimal(decimal_text(value)),
        same_number(signed(numeral_decimal(decimal_text(value)), value.negative), value),
{
    let v = value.spec_abs().spec_normalize();
    crate::decimal::lemma_normalize_wf(value.spec_abs());
    lemma_render_fits(v);
    crate::decimal::lemma_normalize_same_number(value);
}

} // verus!

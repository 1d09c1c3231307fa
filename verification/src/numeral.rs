//! Numerals as the display writes them: decimal digits with at most one
//! point, such as `0`, `235`, `23.` or `0.235`.

use vstd::prelude::*;

verus! {

pub open spec fn is_digit_char(c: char) -> bool {
    '0' <= c && c <= '9'
}

/// The value of a digit character.
pub open spec fn char_value(c: char) -> nat {
    (c as int - '0' as int) as nat
}

/// The character that writes `d`, for `d < 10`.
pub open spec fn digit_char(d: nat) -> char {
    (d + '0' as int) as char
}

/// A numeral: it starts with a digit, and holds only digits and at most one
/// decimal point.
pub open spec fn is_numeral(s: Seq<char>) -> bool {
    &&& s.len() > 0
    &&& is_digit_char(s[0])
    &&& forall|i: int| 0 <= i < s.len() ==> is_digit_char(#[trigger] s[i]) || s[i] == '.'
    &&& forall|i: int, j: int| 0 <= i < j < s.len() && #[trigger] s[i] == '.' ==> #[trigger] s[j] != '.'
}

/// The integer that the digits of `s` write when its point is ignored.
pub open spec fn digits_value(s: Seq<char>) -> nat
    decreases s.len(),
{
    if s.len() == 0 {
        0
    } else if is_digit_char(s.last()) {
        digits_value(s.drop_last()) * 10 + char_value(s.last())
    } else {
        digits_value(s.drop_last())
    }
}

/// How many digits stand after the point of `s`; `0` where it has none.
pub open spec fn fraction_len(s: Seq<char>) -> nat
    decreases s.len(),
{
    if s.len() == 0 {
        0
    } else if s.last() == '.' {
        0
    } else if s.drop_last().contains('.') {
        fraction_len(s.drop_last()) + 1
    } else {
        0
    }
}

/// How many digits `s` holds.
pub open spec fn digit_count(s: Seq<char>) -> nat {
    if s.contains('.') {
        (s.len() - 1) as nat
    } else {
        s.len()
    }
}

pub open spec fn pow10(n: nat) -> nat
    decreases n,
{
    if n == 0 {
        1
    } else {
        10 * pow10((n - 1) as nat)
    }
}

/// The decimal digits of `m`, without leading zeros; empty for `0`.
pub open spec fn nat_digits(m: nat) -> Seq<char>
    decreases m,
{
    if m == 0 {
        seq![]
    } else {
        nat_digits(m / 10).push(digit_char(m % 10))
    }
}

/// `ds` with zeros put in front of it until it is at least `n` long.
pub open spec fn zero_padded(ds: Seq<char>, n: nat) -> Seq<char> {
    if ds.len() >= n {
        ds
    } else {
        Seq::new((n - ds.len()) as nat, |i: int| '0') + ds
    }
}

/// `w`, or `0` where `w` is empty.
pub open spec fn or_zero(w: Seq<char>) -> Seq<char> {
    if w.len() == 0 {
        seq!['0']
    } else {
        w
    }
}

/// The magnitude `m / 10^scale` written with exactly `scale` digits after
/// the point, and a point only where `scale > 0`: `(3100, 3)` is `3.100`,
/// `(5, 2)` is `0.05`, `(0, 0)` is `0`.
pub open spec fn render_magnitude(m: nat, scale: nat) -> Seq<char> {
    let ds = zero_padded(nat_digits(m), scale);
    let whole = (ds.len() - scale) as int;
    if scale == 0 {
        or_zero(ds)
    } else {
        or_zero(ds.take(whole)) + seq!['.'] + ds.skip(whole)
    }
}

pub open spec fn all_digits(s: Seq<char>) -> bool {
    forall|i: int| 0 <= i < s.len() ==> is_digit_char(#[trigger] s[i])
}

pub proof fn lemma_nat_digits(m: nat)
    ensures
        all_digits(nat_digits(m)),
        digits_value(nat_digits(m)) == m,
        nat_digits(m).len() == 0 <==> m == 0,
        m < pow10(nat_digits(m).len()),
    decreases m,
{
    if m != 0 {
        lemma_nat_digits(m / 10);
        let p = nat_digits(m / 10);
        assert(nat_digits(m) == p.push(digit_char(m % 10)));
        assert(p.push(digit_char(m % 10)).drop_last() =~= p);
    }
}

/// Appending digits: the value shifts left by their number.
pub proof fn lemma_value_concat(a: Seq<char>, b: Seq<char>)
    requires
        all_digits(b),
    ensures
        digits_value(a + b) == digits_value(a) * pow10(b.len()) + digits_value(b),
    decreases b.len(),
{
    if b.len() == 0 {
        assert(a + b =~= a);
        assert(pow10(0) == 1);
        assert(digits_value(a) * 1 == digits_value(a)) by (nonlinear_arith);
    } else {
        let b2 = b.drop_last();
        let c = b.last();
        lemma_value_concat(a, b2);
        assert((a + b).drop_last() =~= a + b2);
        assert(b.drop_last() =~= b2);
        assert((a + b).last() == c);
        assert(is_digit_char(b[b.len() - 1]));
        assert(digits_value(b) == digits_value(b2) * 10 + char_value(c));
        let x = digits_value(a);
        let p = pow10(b2.len());
        let y = digits_value(b2);
        assert(pow10(b.len()) == 10 * p);
        assert((x * p + y) * 10 + char_value(c) == x * (10 * p) + (y * 10 + char_value(c)))
            by (nonlinear_arith);
    }
}

/// Leading zeros do not change the value.
pub proof fn lemma_value_zeros(n: nat, b: Seq<char>)
    ensures
        digits_value(Seq::new(n, |i: int| '0') + b) == digits_value(b),
{
    let z = Seq::new(n, |i: int| '0');
    lemma_zeros_value(n);
    lemma_value_concat_any(z, b);
}

proof fn lemma_zeros_value(n: nat)
    ensures
        digits_value(Seq::new(n, |i: int| '0')) == 0,
    decreases n,
{
    if n > 0 {
        lemma_zeros_value((n - 1) as nat);
        assert(Seq::new(n, |i: int| '0').drop_last() =~= Seq::new((n - 1) as nat, |i: int| '0'));
    }
}

/// Where `a` is worth nothing, `a + b` is worth what `b` is.
proof fn lemma_value_concat_any(a: Seq<char>, b: Seq<char>)
    requires
        digits_value(a) == 0,
    ensures
        digits_value(a + b) == digits_value(b),
    decreases b.len(),
{
    if b.len() == 0 {
        assert(a + b =~= a);
    } else {
        lemma_value_concat_any(a, b.drop_last());
        assert((a + b).drop_last() =~= a + b.drop_last());
        assert((a + b).last() == b.last());
    }
}

/// A numeral without a point has no fraction digits.
pub proof fn lemma_fraction_len_no_point(s: Seq<char>)
    requires
        !s.contains('.'),
    ensures
        fraction_len(s) == 0,
{
    if s.len() > 0 {
        assert(s[s.len() - 1] == s.last());
        if s.drop_last().contains('.') {
            let i = choose|i: int| 0 <= i < s.drop_last().len() && s.drop_last()[i] == '.';
            assert(s[i] == '.');
        }
    }
}

/// After the point come exactly the digits of `f`.
pub proof fn lemma_fraction_len_after_point(x: Seq<char>, f: Seq<char>)
    requires
        all_digits(f),
    ensures
        fraction_len(x + seq!['.'] + f) == f.len(),
    decreases f.len(),
{
    let t = x + seq!['.'] + f;
    if f.len() == 0 {
        assert(t =~= x.push('.'));
    } else {
        let f2 = f.drop_last();
        lemma_fraction_len_after_point(x, f2);
        assert(t.drop_last() =~= x + seq!['.'] + f2);
        assert(is_digit_char(f[f.len() - 1]));
        assert(t.last() == f.last());
        assert((x + seq!['.'] + f2)[x.len() as int] == '.');
    }
}

proof fn lemma_zero_padded(ds: Seq<char>, n: nat)
    requires
        all_digits(ds),
    ensures
        all_digits(zero_padded(ds, n)),
        digits_value(zero_padded(ds, n)) == digits_value(ds),
        zero_padded(ds, n).len() >= n,
        zero_padded(ds, n).len() >= ds.len(),
{
    if ds.len() < n {
        lemma_value_zeros((n - ds.len()) as nat, ds);
        let z = Seq::new((n - ds.len()) as nat, |i: int| '0');
        assert forall|i: int| 0 <= i < (z + ds).len() implies is_digit_char(#[trigger] (z + ds)[i]) by {
            if i >= z.len() {
                assert((z + ds)[i] == ds[i - z.len()]);
            }
        }
    }
}

/// What `render_magnitude` writes is a numeral that gives back the
/// mantissa and the scale it was written from.
pub proof fn lemma_render_magnitude(m: nat, scale: nat)
    ensures
        is_numeral(render_magnitude(m, scale)),
        digits_value(render_magnitude(m, scale)) == m,
        fraction_len(render_magnitude(m, scale)) == scale,
{
    lemma_nat_digits(m);
    let ds = zero_padded(nat_digits(m), scale);
    lemma_zero_padded(nat_digits(m), scale);
    let t = render_magnitude(m, scale);
    let zero = seq!['0'];
    lemma_zero_numeral();
    if scale == 0 {
        if ds.len() == 0 {
            assert(t == zero);
            lemma_fraction_len_no_point(zero);
        } else {
            assert(t == ds);
            assert(!ds.contains('.')) by {
                if ds.contains('.') {
                    let i = choose|i: int| 0 <= i < ds.len() && ds[i] == '.';
                    assert(is_digit_char(ds[i]));
                }
            }
            lemma_fraction_len_no_point(ds);
        }
    } else {
        let whole = (ds.len() - scale) as int;
        let w = ds.take(whole);
        let f = ds.skip(whole);
        let ow = or_zero(w);
        assert(all_digits(f)) by {
            assert forall|i: int| 0 <= i < f.len() implies is_digit_char(#[trigger] f[i]) by {
                assert(f[i] == ds[i + whole]);
            }
        }
        assert(all_digits(w)) by {
            assert forall|i: int| 0 <= i < w.len() implies is_digit_char(#[trigger] w[i]) by {
                assert(w[i] == ds[i]);
            }
        }
        assert(all_digits(ow));
        assert(ds =~= w + f);
        lemma_value_concat(w, f);
        lemma_value_concat(ow + seq!['.'], f);
        assert((ow + seq!['.']).drop_last() =~= ow);
        assert(digits_value(ow + seq!['.']) == digits_value(ow));
        assert(digits_value(ow) == digits_value(w));
        assert(t == ow + seq!['.'] + f);
        lemma_fraction_len_after_point(ow, f);
        lemma_point_numeral(ow, f);
    }
}

/// The single zero: a numeral worth nothing.
pub proof fn lemma_zero_numeral()
    ensures
        is_numeral(seq!['0']),
        digits_value(seq!['0']) == 0,
        fraction_len(seq!['0']) == 0,
        digit_count(seq!['0']) == 1,
        !seq!['0'].contains('.'),
{
    let zero = seq!['0'];
    assert(zero.drop_last() =~= Seq::<char>::empty());
    assert(zero.last() == '0');
    assert(is_digit_char('0'));
    assert(char_value('0') == 0);
    assert(digits_value(Seq::<char>::empty()) == 0);
    assert(digits_value(zero) == digits_value(zero.drop_last()) * 10 + char_value(zero.last()));
    assert(!zero.contains('.')) by {
        if zero.contains('.') {
            let i = choose|i: int| 0 <= i < zero.len() && zero[i] == '.';
            assert(zero[0] == '0');
        }
    }
    lemma_fraction_len_no_point(zero);
}

proof fn lemma_point_numeral(ow: Seq<char>, f: Seq<char>)
    requires
        ow.len() > 0,
        all_digits(ow),
        all_digits(f),
    ensures
        is_numeral(ow + seq!['.'] + f),
{
    let t = ow + seq!['.'] + f;
    assert(t[0] == ow[0]);
    assert forall|i: int| 0 <= i < t.len() implies is_digit_char(#[trigger] t[i]) || t[i] == '.' by {
        if i < ow.len() {
            assert(t[i] == ow[i]);
        } else if i > ow.len() {
            assert(t[i] == f[i - ow.len() - 1]);
        }
    }
    assert forall|i: int, j: int| 0 <= i < j < t.len() && #[trigger] t[i] == '.' implies #[trigger] t[j] != '.' by {
        if i < ow.len() {
            assert(t[i] == ow[i]);
        } else if i > ow.len() {
            assert(t[i] == f[i - ow.len() - 1]);
        }
        assert(j > ow.len());
        assert(t[j] == f[j - ow.len() - 1]);
    }
}

/// The value of a numeral is below ten to the number of its digits, and no
/// more digits than it has stand after its point.
pub proof fn lemma_numeral_bounds(s: Seq<char>)
    requires
        forall|i: int| 0 <= i < s.len() ==> is_digit_char(#[trigger] s[i]) || s[i] == '.',
        forall|i: int, j: int| 0 <= i < j < s.len() && #[trigger] s[i] == '.' ==> #[trigger] s[j] != '.',
    ensures
        digits_value(s) < pow10(digit_count(s)),
        fraction_len(s) <= digit_count(s),
    decreases s.len(),
{
    if s.len() > 0 {
        let p = s.drop_last();
        let c = s.last();
        assert(c == s[s.len() - 1]);
        assert forall|i: int| 0 <= i < p.len() implies is_digit_char(#[trigger] p[i]) || p[i] == '.' by {
            assert(p[i] == s[i]);
        }
        assert forall|i: int, j: int| 0 <= i < j < p.len() && #[trigger] p[i] == '.' implies #[trigger] p[j] != '.' by {
            assert(p[i] == s[i]);
            assert(p[j] == s[j]);
        }
        lemma_numeral_bounds(p);
        lemma_contains_drop_last(s);
        if c == '.' {
            assert(!p.contains('.')) by {
                if p.contains('.') {
                    let i = choose|i: int| 0 <= i < p.len() && p[i] == '.';
                    assert(s[i] == '.');
                }
            }
            assert(digit_count(s) == digit_count(p));
        } else {
            assert(is_digit_char(c));
            assert(digit_count(s) == digit_count(p) + 1);
            let v = digits_value(p);
            let q = pow10(digit_count(p));
            assert(pow10(digit_count(s)) == 10 * q);
            assert(v * 10 + char_value(c) < 10 * q) by (nonlinear_arith)
                requires
                    v < q,
                    char_value(c) < 10,
            ;
        }
    }
}

/// `s` holds a point where its last character is one or where the rest holds one.
pub proof fn lemma_contains_drop_last(s: Seq<char>)
    requires
        s.len() > 0,
    ensures
        s.contains('.') == (s.last() == '.' || s.drop_last().contains('.')),
{
    if s.contains('.') && s.last() != '.' {
        let i = choose|i: int| 0 <= i < s.len() && s[i] == '.';
        assert(i < s.len() - 1);
        assert(s.drop_last()[i] == '.');
    }
    if s.drop_last().contains('.') {
        let i = choose|i: int| 0 <= i < s.drop_last().len() && s.drop_last()[i] == '.';
        assert(s[i] == '.');
    }
    if s.last() == '.' {
        assert(s[s.len() - 1] == '.');
    }
}

pub proof fn lemma_pow10_28()
    ensures
        pow10(28) == 10_000_000_000_000_000_000_000_000_000,
{
    reveal_with_fuel(pow10, 29);
}

pub proof fn lemma_pow10_monotone(a: nat, b: nat)
    requires
        a <= b,
    ensures
        pow10(a) <= pow10(b),
    decreases b,
{
    if a < b {
        lemma_pow10_monotone(a, (b - 1) as nat);
    }
}

} // verus!

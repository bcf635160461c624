//! Decimal numerals, kept exactly as written.
//!
//! A coordinate is written with decimal digits, and nothing is rounded here: a
//! numeral keeps every digit before and after its decimal separator, and
//! comparisons are made on the exact value.

use crate::errors::ParseErrorInternal;
use vstd::prelude::*;
use vstd::string::StrSliceExecFns;

verus! {

/// A non-negative decimal numeral: the digits before the decimal separator and
/// the digits after it, most significant first. Its value is
/// `whole + frac / 10^frac.len()`.
pub struct Numeral {
    pub whole: Seq<u8>,
    pub frac: Seq<u8>,
}

/// `10^n`.
pub open spec fn pow10(n: nat) -> nat
    decreases n,
{
    if n == 0 {
        1
    } else {
        10 * pow10((n - 1) as nat)
    }
}

/// The number that a sequence of decimal digits writes, most significant first.
pub open spec fn digits_value(digits: Seq<u8>) -> nat
    decreases digits.len(),
{
    if digits.len() == 0 {
        0
    } else {
        10 * digits_value(digits.drop_last()) + digits.last() as nat
    }
}

/// Whether every element is a decimal digit.
pub open spec fn all_decimal(digits: Seq<u8>) -> bool {
    forall|i: int| 0 <= i < digits.len() ==> digits[i] <= 9
}

/// Whether every element is zero.
pub open spec fn all_zero(digits: Seq<u8>) -> bool {
    forall|i: int| 0 <= i < digits.len() ==> digits[i] == 0
}

impl Numeral {
    /// Well-formedness: at least one digit before the separator, and nothing but
    /// decimal digits.
    pub open spec fn is_numeral(self) -> bool {
        &&& self.whole.len() > 0
        &&& all_decimal(self.whole)
        &&& all_decimal(self.frac)
    }

    /// The digit at place `j` after the separator (0 is the tenths); zero beyond
    /// the digits written.
    pub open spec fn frac_digit(self, j: nat) -> nat {
        if j < self.frac.len() {
            self.frac[j as int] as nat
        } else {
            0
        }
    }

    /// The value times `10^j`, rounded down: the numeral read with its separator
    /// moved `j` places to the right. Exact once `j >= self.frac.len()`.
    pub open spec fn scaled(self, j: nat) -> nat
        decreases j,
    {
        if j == 0 {
            digits_value(self.whole)
        } else {
            10 * self.scaled((j - 1) as nat) + self.frac_digit((j - 1) as nat)
        }
    }

    /// Whether the value is zero.
    pub open spec fn is_zero(self) -> bool {
        all_zero(self.whole) && all_zero(self.frac)
    }

    /// The numeral `0`.
    pub open spec fn zero() -> Numeral {
        Numeral { whole: seq![0u8], frac: Seq::empty() }
    }
}

/// Whether `c` is one of the digits `0` to `9`.
pub open spec fn is_digit(c: char) -> bool {
    0x30 <= c as u32 <= 0x39
}

/// The digit that `c` stands for.
pub open spec fn digit_of(c: char) -> u8 {
    (c as u32 - 0x30) as u8
}

/// Whether `c` is a decimal separator: a period or a comma.
pub open spec fn is_separator(c: char) -> bool {
    c == '.' || c == ','
}

/// Length of the run of digits in `s` that starts at `from`.
pub open spec fn digit_run(s: Seq<char>, from: int) -> nat
    decreases s.len() - from,
{
    if 0 <= from < s.len() && is_digit(s[from]) {
        1 + digit_run(s, from + 1)
    } else {
        0
    }
}

/// The digits that the characters of `s` from `from` up to `to` stand for.
pub open spec fn digits_between(s: Seq<char>, from: int, to: int) -> Seq<u8> {
    Seq::new((to - from) as nat, |i: int| digit_of(s[from + i]))
}

/// The numeral that `s` writes: one or more digits, then optionally a period or
/// a comma and one or more digits. `None` for any other text.
pub open spec fn numeral_of(s: Seq<char>) -> Option<Numeral> {
    let w = digit_run(s, 0) as int;
    let f = digit_run(s, w + 1) as int;
    if w == 0 {
        None
    } else if w == s.len() {
        Some(Numeral { whole: digits_between(s, 0, w), frac: Seq::empty() })
    } else if is_separator(s[w]) && f > 0 && w + 1 + f == s.len() {
        Some(
            Numeral {
                whole: digits_between(s, 0, w),
                frac: digits_between(s, w + 1, s.len() as int),
            },
        )
    } else {
        None
    }
}

/// The numeral that `s` writes after an optional minus sign, with whether the
/// sign was there.
pub open spec fn signed_numeral_of(s: Seq<char>) -> Option<(bool, Numeral)> {
    if s.len() > 0 && s[0] == '-' {
        match numeral_of(s.subrange(1, s.len() as int)) {
            Some(n) => Some((true, n)),
            None => None,
        }
    } else {
        match numeral_of(s) {
            Some(n) => Some((false, n)),
            None => None,
        }
    }
}

/// A decimal numeral held as its digits.
#[derive(Debug)]
pub struct Decimal {
    whole: Vec<u8>,
    frac: Vec<u8>,
}

impl View for Decimal {
    type V = Numeral;

    closed spec fn view(&self) -> Numeral {
        Numeral { whole: self.whole@, frac: self.frac@ }
    }
}

/// What a parsed numeral is, as a model: `None` for a failure.
pub open spec fn decimal_view(r: Result<Decimal, ParseErrorInternal>) -> Option<Numeral> {
    match r {
        Ok(d) => Some(d@),
        Err(_) => None,
    }
}

/// What a parsed signed numeral is, as a model: `None` for a failure.
pub open spec fn signed_view(r: Result<(bool, Decimal), ParseErrorInternal>) -> Option<
    (bool, Numeral),
> {
    match r {
        Ok((negative, d)) => Some((negative, d@)),
        Err(_) => None,
    }
}

impl Decimal {
    #[verifier::type_invariant]
    spec fn well_formed(self) -> bool {
        self@.is_numeral()
    }

    /// The numeral `0`.
    pub fn zero() -> (r: Decimal)
        ensures
            r@ == Numeral::zero(),
    {
        let mut whole: Vec<u8> = Vec::new();
        whole.push(0);
        let r = Decimal { whole, frac: Vec::new() };
        assert(r@.whole =~= seq![0u8]);
        assert(r@.frac =~= Seq::<u8>::empty());
        r
    }

    /// The digits before the separator, most significant first.
    pub fn whole_digits(&self) -> (r: &Vec<u8>)
        ensures
            r@ == self@.whole,
            self@.is_numeral(),
    {
        proof {
            use_type_invariant(self);
        }
        &self.whole
    }

    /// The digits after the separator.
    pub fn frac_digits(&self) -> (r: &Vec<u8>)
        ensures
            r@ == self@.frac,
            self@.is_numeral(),
    {
        proof {
            use_type_invariant(self);
        }
        &self.frac
    }

    /// Whether the value is zero.
    pub fn is_zero(&self) -> (r: bool)
        ensures
            r == self@.is_zero(),
    {
        only_zeros(&self.whole) && only_zeros(&self.frac)
    }
}

fn only_zeros(digits: &Vec<u8>) -> (r: bool)
    ensures
        r == all_zero(digits@),
{
    let mut i: usize = 0;
    while i < digits.len()
        invariant
            i <= digits.len(),
            forall|j: int| 0 <= j < i ==> digits@[j] == 0,
        decreases digits.len() - i,
    {
        if digits[i] != 0 {
            return false;
        }
        i = i + 1;
    }
    true
}

/// Reads a numeral without a sign, as the minutes and the seconds are
/// written, to its exact value. A comma is taken as the decimal separator, as
/// a period is. A sign before the digits makes the text no such numeral.
pub fn parse_magnitude(text: &str) -> (r: Result<Decimal, ParseErrorInternal>)
    ensures
        decimal_view(r) == numeral_of(text@),
{
    let ghost s = text@;
    let len = text.unicode_len();
    let mut whole: Vec<u8> = Vec::new();
    let mut frac: Vec<u8> = Vec::new();
    let mut in_frac = false;
    let mut i: usize = 0;
    for c in it: text.chars()
        invariant
            it.seq() == s,
            s == text@,
            len == s.len(),
            i == it.index(),
            i <= len,
            all_decimal(whole@),
            all_decimal(frac@),
            !in_frac ==> {
                &&& whole@ == digits_between(s, 0, i as int)
                &&& frac@.len() == 0
                &&& digit_run(s, 0) == i + digit_run(s, i as int)
            },
            in_frac ==> {
                let w = whole@.len() as int;
                &&& 0 < w < i
                &&& w == digit_run(s, 0)
                &&& is_separator(s[w])
                &&& whole@ == digits_between(s, 0, w)
                &&& frac@ == digits_between(s, w + 1, i as int)
                &&& digit_run(s, w + 1) == (i - w - 1) + digit_run(s, i as int)
            },
    {
        let u = c as u32;
        if 0x30 <= u && u <= 0x39 {
            let digit = (u - 0x30) as u8;
            if in_frac {
                frac.push(digit);
                assert(frac@ =~= digits_between(s, whole@.len() as int + 1, i + 1));
            } else {
                whole.push(digit);
                assert(whole@ =~= digits_between(s, 0, i + 1));
            }
        } else if !in_frac && (c == '.' || c == ',') && i > 0 {
            in_frac = true;
            assert(frac@ =~= digits_between(s, i + 1, i + 1));
        } else {
            return Err(ParseErrorInternal);
        }
        i = i + 1;
    }
    if i == 0 || (in_frac && frac.len() == 0) {
        Err(ParseErrorInternal)
    } else {
        assert(!in_frac ==> frac@ =~= Seq::<u8>::empty());
        Ok(Decimal { whole, frac })
    }
}

/// Converts a captured numeral to its exact value. A comma is taken as the
/// decimal separator, as a period is, and a minus sign may stand before the
/// digits. The sign is reported beside the magnitude: `-0` is zero, written
/// with a sign.
pub fn parse_allow_comma(text: &str) -> (r: Result<(bool, Decimal), ParseErrorInternal>)
    ensures
        signed_view(r) == signed_numeral_of(text@),
{
    let len = text.unicode_len();
    if len > 0 && text.get_char(0) == '-' {
        match parse_magnitude(text.substring_char(1, len)) {
            Ok(d) => Ok((true, d)),
            Err(e) => Err(e),
        }
    } else {
        match parse_magnitude(text) {
            Ok(d) => Ok((false, d)),
            Err(e) => Err(e),
        }
    }
}

/// A numeral without digits after the separator is a whole number: moving the
/// separator `j` places multiplies it by `10^j`.
pub proof fn lemma_scaled_whole(n: Numeral, j: nat)
    requires
        n.frac.len() == 0,
    ensures
        n.scaled(j) == digits_value(n.whole) * pow10(j),
    decreases j,
{
    let v = digits_value(n.whole);
    if j == 0 {
        assert(v * 1 == v) by (nonlinear_arith);
    } else {
        lemma_scaled_whole(n, (j - 1) as nat);
        let p = pow10((j - 1) as nat);
        assert(pow10(j) == 10 * p);
        assert(n.frac_digit((j - 1) as nat) == 0);
        assert(10 * (v * p) == v * (10 * p)) by (nonlinear_arith);
    }
}

/// The digits after the separator add less than one: the value lies between
/// its whole part and the next whole number.
pub proof fn lemma_scaled_bounds(n: Numeral, j: nat)
    requires
        n.is_numeral(),
    ensures
        digits_value(n.whole) * pow10(j) <= n.scaled(j) < (digits_value(n.whole) + 1) * pow10(j),
    decreases j,
{
    let v = digits_value(n.whole);
    if j == 0 {
        assert(v * 1 == v && (v + 1) * 1 == v + 1) by (nonlinear_arith);
    } else {
        lemma_scaled_bounds(n, (j - 1) as nat);
        let p = pow10((j - 1) as nat);
        assert(pow10(j) == 10 * p);
        assert(n.frac_digit((j - 1) as nat) <= 9);
        assert(10 * (v * p) == v * (10 * p)) by (nonlinear_arith);
        assert(10 * ((v + 1) * p) == (v + 1) * (10 * p)) by (nonlinear_arith);
    }
}

/// Digits that are all zero write zero.
pub proof fn lemma_zero_digits(digits: Seq<u8>)
    requires
        all_zero(digits),
    ensures
        digits_value(digits) == 0,
    decreases digits.len(),
{
    if digits.len() > 0 {
        lemma_zero_digits(digits.drop_last());
    }
}

/// A numeral of zeros alone is zero at every precision.
pub proof fn lemma_zero_scaled(n: Numeral, j: nat)
    requires
        n.is_zero(),
    ensures
        n.scaled(j) == 0,
    decreases j,
{
    if j == 0 {
        lemma_zero_digits(n.whole);
    } else {
        lemma_zero_scaled(n, (j - 1) as nat);
    }
}

/// A power of ten is at least one.
pub proof fn lemma_pow10_positive(n: nat)
    ensures
        pow10(n) >= 1,
    decreases n,
{
    if n > 0 {
        lemma_pow10_positive((n - 1) as nat);
    }
}

/// Digits that are not all zero write a number above zero.
pub proof fn lemma_nonzero_digits(digits: Seq<u8>)
    requires
        !all_zero(digits),
    ensures
        digits_value(digits) > 0,
    decreases digits.len(),
{
    let i = choose|i: int| 0 <= i < digits.len() && digits[i] != 0;
    if digits.last() == 0 {
        assert(digits.drop_last()[i] != 0);
        lemma_nonzero_digits(digits.drop_last());
    }
}

/// A digit other than zero at place `i` after the separator lifts the value
/// above its whole part, at every precision that reaches the digit.
pub proof fn lemma_scaled_above(n: Numeral, i: nat, j: nat)
    requires
        n.is_numeral(),
        i < n.frac.len(),
        i < j,
        n.frac[i as int] != 0,
    ensures
        n.scaled(j) >= digits_value(n.whole) * pow10(j) + 1,
    decreases j,
{
    let v = digits_value(n.whole);
    let p = pow10((j - 1) as nat);
    assert(pow10(j) == 10 * p);
    assert(10 * (v * p) == v * (10 * p)) by (nonlinear_arith);
    if j == i + 1 {
        lemma_scaled_bounds(n, i);
        assert(n.frac_digit(i) >= 1);
    } else {
        lemma_scaled_above(n, i, (j - 1) as nat);
    }
}

/// A numeral that is not zero is above zero at every precision that holds all
/// its digits.
pub proof fn lemma_nonzero_scaled(n: Numeral, j: nat)
    requires
        n.is_numeral(),
        !n.is_zero(),
        j >= n.frac.len(),
    ensures
        n.scaled(j) > 0,
{
    let v = digits_value(n.whole);
    lemma_pow10_positive(j);
    if !all_zero(n.whole) {
        lemma_nonzero_digits(n.whole);
        lemma_scaled_bounds(n, j);
        assert(v * pow10(j) >= 1) by (nonlinear_arith)
            requires
                v >= 1,
                pow10(j) >= 1,
        ;
    } else {
        let i = choose|i: int| 0 <= i < n.frac.len() && n.frac[i] != 0;
        lemma_scaled_above(n, i as nat, j);
        assert(v * pow10(j) >= 0) by (nonlinear_arith)
            requires
                v >= 0,
                pow10(j) >= 0,
        ;
    }
}

/// `s` with every comma replaced by a period.
pub open spec fn with_periods(s: Seq<char>) -> Seq<char> {
    Seq::new(
        s.len(),
        |i: int|
            if s[i] == ',' {
                '.'
            } else {
                s[i]
            },
    )
}

proof fn lemma_digit_run_covers(s: Seq<char>, from: int, i: int)
    requires
        from <= i < from + digit_run(s, from),
    ensures
        0 <= i < s.len(),
        is_digit(s[i]),
    decreases s.len() - from,
{
    if i > from {
        lemma_digit_run_covers(s, from + 1, i);
    }
}

proof fn lemma_digit_run_with_periods(s: Seq<char>, from: int)
    ensures
        digit_run(with_periods(s), from) == digit_run(s, from),
    decreases s.len() - from,
{
    if 0 <= from < s.len() && is_digit(s[from]) {
        lemma_digit_run_with_periods(s, from + 1);
    }
}

proof fn lemma_digits_with_periods(s: Seq<char>, from: int, to: int)
    requires
        0 <= from <= to,
        to <= from + digit_run(s, from),
    ensures
        digits_between(with_periods(s), from, to) == digits_between(s, from, to),
{
    let a = digits_between(with_periods(s), from, to);
    let b = digits_between(s, from, to);
    assert forall|i: int| 0 <= i < a.len() implies a[i] == b[i] by {
        assert(a.len() == to - from);
        lemma_digit_run_covers(s, from, from + i);
    }
    assert(a =~= b);
}

/// A comma and a period are the same decimal separator: a numeral written with
/// a comma is the numeral written with a period in its place.
pub proof fn lemma_comma_is_period(s: Seq<char>)
    ensures
        numeral_of(with_periods(s)) == numeral_of(s),
        signed_numeral_of(with_periods(s)) == signed_numeral_of(s),
{
    lemma_numeral_with_periods(s);
    if s.len() > 0 && s[0] == '-' {
        let rest = s.subrange(1, s.len() as int);
        lemma_numeral_with_periods(rest);
        assert(with_periods(s).subrange(1, s.len() as int) =~= with_periods(rest));
    }
}

proof fn lemma_numeral_with_periods(s: Seq<char>)
    ensures
        numeral_of(with_periods(s)) == numeral_of(s),
{
    let w = digit_run(s, 0) as int;
    lemma_digit_run_with_periods(s, 0);
    lemma_digit_run_with_periods(s, w + 1);
    if w > 0 {
        lemma_digit_run_covers(s, 0, w - 1);
        lemma_digits_with_periods(s, 0, w);
        let f = digit_run(s, w + 1) as int;
        if w < s.len() && f > 0 && w + 1 + f == s.len() {
            lemma_digits_with_periods(s, w + 1, s.len() as int);
        }
    }
}

/// The character that writes the digit `d`.
pub open spec fn digit_char(d: u8) -> char {
    (d + 0x30) as char
}

/// The characters that write a sequence of digits.
pub open spec fn digit_chars(digits: Seq<u8>) -> Seq<char> {
    Seq::new(digits.len(), |i: int| digit_char(digits[i]))
}

/// A numeral written out: its digits, with `separator` before the digits of
/// the fraction where there are any.
pub open spec fn written(n: Numeral, separator: char) -> Seq<char> {
    if n.frac.len() == 0 {
        digit_chars(n.whole)
    } else {
        digit_chars(n.whole) + seq![separator] + digit_chars(n.frac)
    }
}

proof fn lemma_digit_run_counts(s: Seq<char>, from: int, n: nat)
    requires
        0 <= from,
        from + n <= s.len(),
        forall|i: int| from <= i < from + n ==> is_digit(#[trigger] s[i]),
        from + n == s.len() || !is_digit(s[from + n]),
    ensures
        digit_run(s, from) == n,
    decreases n,
{
    if n > 0 {
        lemma_digit_run_counts(s, from + 1, (n - 1) as nat);
    }
}

/// Reading is the inverse of writing: a well-formed numeral, written with a
/// period or with a comma, is read back digit for digit.
pub proof fn lemma_read_what_was_written(n: Numeral, separator: char)
    requires
        n.is_numeral(),
        is_separator(separator),
    ensures
        numeral_of(written(n, separator)) == Some(n),
{
    let s = written(n, separator);
    let w = n.whole.len() as int;
    assert forall|i: int| 0 <= i < w implies is_digit(#[trigger] s[i]) && digit_of(s[i])
        == n.whole[i] by {
        assert(s[i] == digit_char(n.whole[i]));
    }
    lemma_digit_run_counts(s, 0, w as nat);
    assert(digits_between(s, 0, w) =~= n.whole);
    if n.frac.len() == 0 {
        assert(n.frac =~= Seq::<u8>::empty());
    } else {
        let f = n.frac.len() as int;
        assert(s[w] == separator);
        assert forall|i: int| w + 1 <= i < w + 1 + f implies is_digit(#[trigger] s[i])
            && digit_of(s[i]) == n.frac[i - w - 1] by {
            assert(s[i] == digit_char(n.frac[i - w - 1]));
        }
        lemma_digit_run_counts(s, w + 1, f as nat);
        assert(digits_between(s, w + 1, s.len() as int) =~= n.frac);
    }
}

proof fn lemma_digit_char_of(c: char)
    requires
        is_digit(c),
    ensures
        digit_of(c) <= 9,
        digit_char(digit_of(c)) == c,
{
    let u = c as u32;
    assert(digit_of(c) == u - 0x30);
    assert((u as int) as char == c);
}

/// Only written numerals are read: text that reads as a numeral is that
/// numeral written with a period or with a comma, and the numeral is
/// well-formed.
pub proof fn lemma_read_only_what_is_written(s: Seq<char>)
    ensures
        numeral_of(s) matches Some(n) ==> n.is_numeral() && (s == written(n, '.') || s == written(
            n,
            ',',
        )),
{
    if let Some(n) = numeral_of(s) {
        let w = digit_run(s, 0) as int;
        lemma_digit_run_covers(s, 0, w - 1);
        assert forall|i: int| 0 <= i < w implies n.whole[i] <= 9 && digit_char(n.whole[i])
            == s[i] by {
            lemma_digit_run_covers(s, 0, i);
            lemma_digit_char_of(s[i]);
            assert(n.whole[i] == digit_of(s[i]));
        }
        if w == s.len() {
            assert(s =~= written(n, '.'));
        } else {
            let f = digit_run(s, w + 1) as int;
            assert forall|i: int| 0 <= i < f implies n.frac[i] <= 9 && digit_char(n.frac[i])
                == s[w + 1 + i] by {
                lemma_digit_run_covers(s, w + 1, w + 1 + i);
                lemma_digit_char_of(s[w + 1 + i]);
                assert(n.frac[i] == digit_of(s[w + 1 + i]));
            }
            assert(s =~= written(n, s[w]));
        }
    }
}

} // verus!

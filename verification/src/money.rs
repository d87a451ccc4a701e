//! Amounts of money as exact integers of minor units (cents), read from and
//! written as decimal text.

use vstd::prelude::*;
use crate::text::{chars_of, push_char};

verus! {

pub open spec fn is_digit(c: char) -> bool {
    0x30 <= c as u32 <= 0x39
}

pub open spec fn digit_value(c: char) -> nat {
    (c as u32 - 0x30) as nat
}

/// The character of one decimal digit.
pub open spec fn digit_char(d: nat) -> char {
    ((0x30 + d) as u8) as char
}

/// Length of the longest prefix of `s` made of decimal digits.
pub open spec fn digits_len(s: Seq<char>) -> nat
    decreases s.len(),
{
    if s.len() == 0 || !is_digit(s[0]) {
        0
    } else {
        1 + digits_len(s.skip(1))
    }
}

pub open spec fn all_digits(s: Seq<char>) -> bool {
    forall|i: int| 0 <= i < s.len() ==> is_digit(#[trigger] s[i])
}

/// The number that a sequence of decimal digits denotes.
pub open spec fn decimal_value(s: Seq<char>) -> nat
    decreases s.len(),
{
    if s.len() == 0 {
        0
    } else {
        10 * decimal_value(s.drop_last()) + digit_value(s.last())
    }
}

/// Cents that the digits after the decimal point stand for: the first two
/// digits, one more where the third digit is five or above.
pub open spec fn fraction_cents(f: Seq<char>) -> nat {
    (if f.len() > 0 { 10 * digit_value(f[0]) } else { 0 })
    + (if f.len() > 1 { digit_value(f[1]) } else { 0 })
    + (if f.len() > 2 && digit_value(f[2]) >= 5 { 1nat } else { 0 })
}

pub open spec fn has_sign(s: Seq<char>) -> bool {
    s.len() > 0 && (s[0] == '-' || s[0] == '+')
}

/// The text without its leading sign.
pub open spec fn unsigned_part(s: Seq<char>) -> Seq<char> {
    if has_sign(s) { s.skip(1) } else { s }
}

/// The digits before the decimal point of an unsigned text.
pub open spec fn whole_part(body: Seq<char>) -> Seq<char> {
    body.take(digits_len(body) as int)
}

/// Whether an unsigned text holds a decimal point after its leading digits.
pub open spec fn has_point(body: Seq<char>) -> bool {
    digits_len(body) < body.len() && body[digits_len(body) as int] == '.'
}

/// The digits after the decimal point of an unsigned text, none where it has
/// no point.
pub open spec fn fraction_part(body: Seq<char>) -> Seq<char> {
    if has_point(body) { body.skip(digits_len(body) as int + 1) } else { Seq::empty() }
}

/// A decimal amount: an optional sign, digits, and optionally a point and more
/// digits, with at least one digit in all.
pub open spec fn is_decimal(s: Seq<char>) -> bool {
    let body = unsigned_part(s);
    let w = digits_len(body);
    &&& w == body.len() || has_point(body)
    &&& all_digits(fraction_part(body))
    &&& w + fraction_part(body).len() > 0
}

/// The amount in cents that a text denotes, rounded half away from zero,
/// or `None` where the text is no decimal amount.
pub open spec fn amount_of(s: Seq<char>) -> Option<int> {
    if is_decimal(s) {
        let body = unsigned_part(s);
        let cents = 100 * decimal_value(whole_part(body)) + fraction_cents(fraction_part(body));
        Some(if s[0] == '-' { -cents } else { cents as int })
    } else {
        None
    }
}

/// The amount that `parse_amount` returns for a text: what the text denotes,
/// where that fits in 64 bits.
pub open spec fn parsed_amount(s: Seq<char>) -> Option<i64> {
    match amount_of(s) {
        Some(v) => if i64::MIN <= v <= i64::MAX { Some(v as i64) } else { None },
        None => None,
    }
}

pub proof fn lemma_digits_len_bounds(s: Seq<char>)
    ensures
        digits_len(s) <= s.len(),
        all_digits(s.take(digits_len(s) as int)),
        digits_len(s) < s.len() ==> !is_digit(s[digits_len(s) as int]),
    decreases s.len(),
{
    if s.len() > 0 && is_digit(s[0]) {
        let t = s.skip(1);
        lemma_digits_len_bounds(t);
        let n = digits_len(s) as int;
        assert forall|i: int| 0 <= i < n implies is_digit(#[trigger] s.take(n)[i]) by {
            if i > 0 {
                assert(s.take(n)[i] == t.take(n - 1)[i - 1]);
            }
        }
        if n < s.len() {
            assert(s[n] == t[n - 1]);
        }
    }
}

/// A run of `k` digits followed by the end or by another character is the
/// leading digits of the text.
pub proof fn lemma_digits_len_run(s: Seq<char>, k: int)
    requires
        0 <= k <= s.len(),
        forall|i: int| 0 <= i < k ==> is_digit(#[trigger] s[i]),
        k < s.len() ==> !is_digit(s[k]),
    ensures
        digits_len(s) == k,
    decreases k,
{
    if k > 0 {
        let t = s.skip(1);
        assert forall|i: int| 0 <= i < k - 1 implies is_digit(#[trigger] t[i]) by {
            assert(t[i] == s[i + 1]);
        }
        if k < s.len() {
            assert(t[k - 1] == s[k]);
        }
        lemma_digits_len_run(t, k - 1);
    }
}

/// Digits appended to a number only make it larger.
pub proof fn lemma_decimal_value_grows(s: Seq<char>, k: int)
    requires
        0 <= k <= s.len(),
    ensures
        decimal_value(s.take(k)) <= decimal_value(s),
    decreases s.len() - k,
{
    if k < s.len() {
        lemma_decimal_value_grows(s, k + 1);
        assert(s.take(k + 1).drop_last() =~= s.take(k));
    } else {
        assert(s.take(k) =~= s);
    }
}

fn digit_of(c: char) -> (res: Option<u8>)
    ensures
        res is Some <==> is_digit(c),
        res matches Some(d) ==> d == digit_value(c) && d <= 9,
{
    let u: u32 = c as u32;
    if 0x30 <= u && u <= 0x39 {
        Some((u - 0x30) as u8)
    } else {
        None
    }
}

/// Reads a decimal amount and gives it in cents. `None` where the text is no
/// decimal amount or the amount does not fit in 64 bits.
pub fn parse_amount(text: &str) -> (res: Option<i64>)
    ensures
        res == parsed_amount(text@),
{
    let chars = chars_of(text);
    let n = chars.len();
    let ghost s = text@;
    let ghost body = unsigned_part(s);
    let mut negative = false;
    let mut i: usize = 0;
    if n > 0 && (chars[0] == '-' || chars[0] == '+') {
        negative = chars[0] == '-';
        i = 1;
    }
    let start = i;
    assert(body =~= s.skip(start as int));
    // Cents above this bound do not fit in 64 bits.
    let bound: u64 = 92233720368547758;
    let mut whole: u64 = 0;
    while i < n
        invariant
            chars@ == s,
            s == text@,
            n == s.len(),
            body == unsigned_part(s),
            body == s.skip(start as int),
            start <= i <= n,
            start <= 1,
            forall|k: int| 0 <= k < i - start ==> is_digit(#[trigger] body[k]),
            whole == decimal_value(body.take(i - start)),
            whole <= bound,
            bound == 92233720368547758,
        ensures
            i < n ==> !is_digit(s[i as int]),
        decreases n - i,
    {
        let d = match digit_of(chars[i]) {
            Some(d) => d,
            None => {
                break ;
            },
        };
        assert(body[i - start] == s[i as int]);
        assert(body.take(i + 1 - start).drop_last() =~= body.take(i - start));
        let next: u128 = whole as u128 * 10 + d as u128;
        if next > bound as u128 {
            proof {
                assert(decimal_value(body.take(i + 1 - start)) == next);
                let w = digits_len(body) as int;
                lemma_digits_len_bounds(body);
                if w < i + 1 - start {
                    assert(is_digit(body[w]));
                }
                lemma_decimal_value_grows(body.take(w), i + 1 - start);
                assert(body.take(w).take(i + 1 - start) =~= body.take(i + 1 - start));
            }
            return None;
        }
        whole = next as u64;
        i = i + 1;
    }
    let wlen = i - start;
    proof {
        if i < n {
            assert(body[i - start] == s[i as int]);
        }
        lemma_digits_len_run(body, wlen as int);
    }
    let mut cents: u64 = whole * 100;
    let mut flen: usize = 0;
    if i < n {
        if chars[i] != '.' {
            return None;
        }
        let fstart = i + 1;
        let ghost frac = fraction_part(body);
        assert(frac =~= s.skip(fstart as int));
        let mut j: usize = fstart;
        while j < n
            invariant
                chars@ == s,
                s == text@,
                n == s.len(),
                body == unsigned_part(s),
                frac == fraction_part(body),
                frac == s.skip(fstart as int),
                fstart <= j <= n,
                forall|k: int| 0 <= k < j - fstart ==> is_digit(#[trigger] frac[k]),
                cents == 100 * whole + fraction_cents(frac.take(j - fstart)),
                whole <= 92233720368547758,
            decreases n - j,
        {
            let d = match digit_of(chars[j]) {
                Some(d) => d,
                None => {
                    assert(frac[j - fstart] == s[j as int]);
                    assert(!is_digit(frac[j - fstart]));
                    return None;
                },
            };
            assert(frac[j - fstart] == s[j as int]);
            let k = j - fstart;
            if k == 0 {
                cents = cents + 10 * (d as u64);
            } else if k == 1 {
                cents = cents + d as u64;
            } else if k == 2 && d >= 5 {
                cents = cents + 1;
            }
            j = j + 1;
        }
        assert(frac.take(n - fstart) =~= frac);
        flen = n - fstart;
    } else {
        assert(body.take(wlen as int) =~= body);
    }
    if wlen + flen == 0 {
        return None;
    }
    assert(is_decimal(s));
    assert(cents == 100 * decimal_value(whole_part(body)) + fraction_cents(fraction_part(body)));
    if negative {
        if cents <= 9223372036854775807 {
            Some(-(cents as i64))
        } else if cents == 9223372036854775808 {
            Some(i64::MIN)
        } else {
            None
        }
    } else {
        assert(s.len() == 0 || s[0] != '-');
        if cents <= 9223372036854775807 {
            Some(cents as i64)
        } else {
            None
        }
    }
}

/// The decimal digits of a number, without leading zeros.
pub open spec fn decimal_digits(n: nat) -> Seq<char>
    decreases n,
{
    if n < 10 {
        seq![digit_char(n)]
    } else {
        decimal_digits(n / 10).push(digit_char(n % 10))
    }
}

/// An amount of cents as text: a minus sign where it is negative, the units,
/// a point and two digits of cents.
pub open spec fn amount_text(cents: int) -> Seq<char> {
    let mag = (if cents < 0 { -cents } else { cents }) as nat;
    (if cents < 0 { seq!['-'] } else { Seq::empty() }) + decimal_digits(mag / 100) + seq![
        '.',
        digit_char(mag % 100 / 10),
        digit_char(mag % 10),
    ]
}

fn char_of_digit(d: u8) -> (res: char)
    requires
        d <= 9,
    ensures
        res == digit_char(d as nat),
{
    (0x30 + d) as char
}

/// Appends the decimal digits of `n` to `out`.
pub fn push_decimal(out: &mut String, n: u128)
    ensures
        final(out)@ == old(out)@ + decimal_digits(n as nat),
    decreases n,
{
    if n >= 10 {
        push_decimal(out, n / 10);
    }
    push_char(out, char_of_digit((n % 10) as u8));
}

/// A count as decimal text.
pub fn format_count(n: u64) -> (res: String)
    ensures
        res@ == decimal_digits(n as nat),
{
    let mut out = String::new();
    push_decimal(&mut out, n as u128);
    out
}

/// An amount of cents as decimal text with two digits after the point.
pub fn format_amount(cents: i128) -> (res: String)
    ensures
        res@ == amount_text(cents as int),
{
    let mut out = String::new();
    let mag: u128 = if cents < 0 {
        push_char(&mut out, '-');
        (-(cents + 1)) as u128 + 1
    } else {
        cents as u128
    };
    push_decimal(&mut out, mag / 100);
    push_char(&mut out, '.');
    push_char(&mut out, char_of_digit((mag % 100 / 10) as u8));
    push_char(&mut out, char_of_digit((mag % 10) as u8));
    out
}

/// The digits written for a number are digits, at least one, and denote the
/// number.
pub proof fn lemma_decimal_digits(n: nat)
    ensures
        decimal_digits(n).len() > 0,
        all_digits(decimal_digits(n)),
        decimal_value(decimal_digits(n)) == n,
    decreases n,
{
    let d = decimal_digits(n);
    if n < 10 {
        assert(d.drop_last() =~= Seq::<char>::empty());
        assert(decimal_value(d.drop_last()) == 0);
        assert(d.last() == digit_char(n));
    } else {
        lemma_decimal_digits(n / 10);
        let init = decimal_digits(n / 10);
        assert(d.drop_last() =~= init);
        assert(d.last() == digit_char(n % 10));
        assert forall|i: int| 0 <= i < d.len() implies is_digit(#[trigger] d[i]) by {
            if i < init.len() {
                assert(d[i] == init[i]);
            }
        }
    }
}

/// Law of the written amount: an amount written as text reads back as the
/// same amount.
pub proof fn lemma_amount_reads_back(cents: int)
    ensures
        amount_of(amount_text(cents)) == Some(cents),
        i64::MIN <= cents <= i64::MAX ==> parsed_amount(amount_text(cents)) == Some(cents as i64),
{
    let mag = (if cents < 0 { -cents } else { cents }) as nat;
    let whole = decimal_digits(mag / 100);
    let frac = seq![digit_char(mag % 100 / 10), digit_char(mag % 10)];
    let tail = seq!['.', digit_char(mag % 100 / 10), digit_char(mag % 10)];
    let text = amount_text(cents);
    lemma_decimal_digits(mag / 100);
    let body = whole + tail;
    if cents < 0 {
        assert(text =~= seq!['-'] + body);
        assert(text[0] == '-');
        assert(text.skip(1) =~= body);
    } else {
        assert(text =~= body);
        assert(text[0] == whole[0]);
        assert(is_digit(whole[0]));
    }
    assert(unsigned_part(text) == body);
    let k = whole.len() as int;
    assert forall|i: int| 0 <= i < k implies is_digit(#[trigger] body[i]) by {
        assert(body[i] == whole[i]);
    }
    assert(body[k] == '.');
    lemma_digits_len_run(body, k);
    assert(body.take(k) =~= whole);
    assert(body.skip(k + 1) =~= frac);
    assert(has_point(body));
    assert(fraction_part(body) == frac);
    assert(all_digits(frac));
    assert(fraction_cents(frac) == 10 * (mag % 100 / 10) + mag % 10);
    assert(is_decimal(text));
}

} // verus!

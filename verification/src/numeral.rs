//! Decimal numerals that fit in eight bits.
//!
//! A numeral is an optional `+` followed by one or more of the digits `0` to
//! `9`. Leading zeros are allowed; anything else, blanks included, is not.

use vstd::prelude::*;

verus! {

/// Why a text is not a numeral of at most 255.
#[derive(Clone, Copy, Debug, PartialEq, Eq, Structural)]
pub enum NumeralErr {
    /// The text has no character at all.
    Empty,
    /// A character that is no digit stands where a digit is due.
    InvalidDigit,
    /// The digits write a number above 255.
    TooLarge,
}

impl NumeralErr {
    /// What [`NumeralErr::message`] returns.
    pub open spec fn spec_message(self) -> Seq<char> {
        match self {
            NumeralErr::Empty => "cannot parse integer from empty string"@,
            NumeralErr::InvalidDigit => "invalid digit found in string"@,
            NumeralErr::TooLarge => "number too large to fit in target type"@,
        }
    }

    /// The fault, in the words that the standard library has for it.
    pub fn message(&self) -> (text: String)
        ensures
            text@ == self.spec_message(),
    {
        match self {
            NumeralErr::Empty => "cannot parse integer from empty string".to_owned(),
            NumeralErr::InvalidDigit => "invalid digit found in string".to_owned(),
            NumeralErr::TooLarge => "number too large to fit in target type".to_owned(),
        }
    }
}

/// Whether `c` is one of `0` to `9`.
pub open spec fn is_digit(c: char) -> bool {
    '0' as int <= c as int <= '9' as int
}

/// The number that the digit `c` stands for; zero for any other character.
pub open spec fn digit_value(c: char) -> nat {
    if is_digit(c) {
        (c as int - '0' as int) as nat
    } else {
        0
    }
}

/// How many digits `s` starts with.
pub open spec fn digit_run(s: Seq<char>) -> nat
    decreases s.len(),
{
    if s.len() > 0 && is_digit(s[0]) {
        1 + digit_run(s.skip(1))
    } else {
        0
    }
}

/// The number that `s` writes in base ten, its last character counting ones.
pub open spec fn decimal_value(s: Seq<char>) -> nat
    decreases s.len(),
{
    if s.len() == 0 {
        0
    } else {
        10 * decimal_value(s.drop_last()) + digit_value(s.last())
    }
}

/// `s` without the `+` it may start with.
pub open spec fn unsigned(s: Seq<char>) -> Seq<char> {
    if s.len() > 0 && s[0] == '+' {
        s.skip(1)
    } else {
        s
    }
}

/// What `s` reads as.
///
/// The digits that follow the optional sign are taken as far as they go. If
/// they already write more than 255 the text is too large, whatever follows
/// them; otherwise a character after them is an invalid digit.
pub open spec fn numeral(s: Seq<char>) -> Result<u8, NumeralErr> {
    let body = unsigned(s);
    let digits = body.take(digit_run(body) as int);
    if s.len() == 0 {
        Err(NumeralErr::Empty)
    } else if body.len() == 0 {
        Err(NumeralErr::InvalidDigit)
    } else if decimal_value(digits) > 255 {
        Err(NumeralErr::TooLarge)
    } else if digits.len() < body.len() {
        Err(NumeralErr::InvalidDigit)
    } else {
        Ok(decimal_value(digits) as u8)
    }
}

/// Whether `s` is one or more digits and nothing else.
pub open spec fn all_digits(s: Seq<char>) -> bool {
    &&& s.len() > 0
    &&& forall|i: int| 0 <= i < s.len() ==> is_digit(#[trigger] s[i])
}

/// The leading digits of `s` are digits, and what follows them is not.
proof fn lemma_digit_run_bounds(s: Seq<char>)
    ensures
        digit_run(s) <= s.len(),
        forall|j: int| 0 <= j < digit_run(s) ==> is_digit(#[trigger] s[j]),
        digit_run(s) < s.len() ==> !is_digit(s[digit_run(s) as int]),
    decreases s.len(),
{
    if s.len() > 0 && is_digit(s[0]) {
        let rest = s.skip(1);
        lemma_digit_run_bounds(rest);
        assert forall|j: int| 0 <= j < digit_run(s) implies is_digit(#[trigger] s[j]) by {
            if j > 0 {
                assert(s[j] == rest[j - 1]);
            }
        }
    }
}

/// A stretch of digits that starts `s` and cannot be made longer is the run
/// of leading digits.
proof fn lemma_digit_run_is(s: Seq<char>, k: int)
    requires
        0 <= k <= s.len(),
        forall|j: int| 0 <= j < k ==> is_digit(#[trigger] s[j]),
        k < s.len() ==> !is_digit(s[k]),
    ensures
        digit_run(s) == k,
    decreases s.len(),
{
    if k > 0 {
        let rest = s.skip(1);
        assert forall|j: int| 0 <= j < k - 1 implies is_digit(#[trigger] rest[j]) by {
            assert(rest[j] == s[j + 1]);
        }
        lemma_digit_run_is(rest, k - 1);
    }
}

/// Reading more characters never makes the number smaller.
proof fn lemma_decimal_value_grows(s: Seq<char>, j: int, k: int)
    requires
        0 <= j <= k <= s.len(),
    ensures
        decimal_value(s.take(j)) <= decimal_value(s.take(k)),
    decreases k - j,
{
    if j < k {
        assert(s.take(k).drop_last() == s.take(k - 1));
        lemma_decimal_value_grows(s, j, k - 1);
    }
}

/// One more character on the right: ten times the number so far, plus the
/// digit.
proof fn lemma_decimal_value_step(s: Seq<char>, k: int)
    requires
        0 <= k < s.len(),
    ensures
        decimal_value(s.take(k + 1)) == 10 * decimal_value(s.take(k)) + digit_value(s[k]),
{
    assert(s.take(k + 1).drop_last() == s.take(k));
}

/// A text reads as a number exactly when, after the sign it may have, it is
/// all digits and they write at most 255; the number is the one they write.
pub proof fn lemma_numeral_accepts(s: Seq<char>)
    ensures
        numeral(s) is Ok <==> all_digits(unsigned(s)) && decimal_value(unsigned(s)) <= 255,
        numeral(s) matches Ok(number) ==> number == decimal_value(unsigned(s)),
{
    let body = unsigned(s);
    lemma_digit_run_bounds(body);
    if digit_run(body) == body.len() {
        assert(body.take(body.len() as int) == body);
    }
}

/// Reads the characters of `chars` from `start` up to `end` as a numeral.
pub(crate) fn read_numeral(chars: &Vec<char>, start: usize, end: usize) -> (number: Result<
    u8,
    NumeralErr,
>)
    requires
        start <= end <= chars.len(),
    ensures
        number == numeral(chars@.subrange(start as int, end as int)),
{
    let ghost text = chars@.subrange(start as int, end as int);
    if start == end {
        return Err(NumeralErr::Empty);
    }
    let first: usize = if chars[start] == '+' {
        start + 1
    } else {
        start
    };
    let ghost body = unsigned(text);
    if first == end {
        return Err(NumeralErr::InvalidDigit);
    }
    let mut value: u8 = 0;
    let mut i: usize = first;
    while i < end
        invariant
            start <= first <= i <= end <= chars.len(),
            text == chars@.subrange(start as int, end as int),
            text.len() > 0,
            body.len() > 0,
            body == unsigned(text),
            body == chars@.subrange(first as int, end as int),
            forall|j: int| 0 <= j < i - first ==> is_digit(#[trigger] body[j]),
            value == decimal_value(body.take(i - first)),
        decreases end - i,
    {
        let c = chars[i];
        let ghost k = i - first;
        if !(c >= '0' && c <= '9') {
            proof {
                lemma_digit_run_is(body, k);
            }
            return Err(NumeralErr::InvalidDigit);
        }
        let digit: u8 = c as u8 - 48;
        proof {
            lemma_decimal_value_step(body, k);
        }
        if value > 25 || (value == 25 && digit > 5) {
            proof {
                lemma_digit_run_bounds(body);
                lemma_decimal_value_grows(body, k + 1, digit_run(body) as int);
            }
            return Err(NumeralErr::TooLarge);
        }
        value = value * 10 + digit;
        i += 1;
    }
    proof {
        lemma_digit_run_is(body, body.len() as int);
    }
    Ok(value)
}

} // verus!

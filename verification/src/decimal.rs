//! Unsigned decimal numerals: reading one as a `u64` and writing a `u64` as
//! one.

use vstd::prelude::*;
use vstd::string::*;

verus! {

/// Whether `c` is one of the decimal digits `0` to `9`.
pub open spec fn is_digit(c: char) -> bool {
    '0' <= c <= '9'
}

/// The number that the decimal digit `c` stands for.
pub open spec fn digit_value(c: char) -> nat {
    if is_digit(c) {
        (c as int - '0' as int) as nat
    } else {
        0
    }
}

/// The decimal digit that stands for `d`, for `d` below ten.
pub open spec fn digit_char(d: nat) -> char {
    ('0' as int + d) as char
}

/// Whether every character of `s` is a decimal digit.
pub open spec fn all_digits(s: Seq<char>) -> bool {
    forall|i: int| 0 <= i < s.len() ==> is_digit(#[trigger] s[i])
}

/// The number that the digits `s` denote in base ten, most significant digit
/// first. The empty sequence denotes zero.
pub open spec fn decimal_value(s: Seq<char>) -> nat
    decreases s.len(),
{
    if s.len() == 0 {
        0
    } else {
        10 * decimal_value(s.drop_last()) + digit_value(s.last())
    }
}

/// The result of reading `s` as an unsigned 64-bit decimal numeral: its value
/// when `s` is a non-empty run of digits that denotes at most `u64::MAX`,
/// nothing otherwise. No sign, separator or white space is accepted; leading
/// zeros are.
pub open spec fn spec_parse_decimal(s: Seq<char>) -> Option<u64> {
    if s.len() > 0 && all_digits(s) && decimal_value(s) <= u64::MAX {
        Some(decimal_value(s) as u64)
    } else {
        None
    }
}

/// The decimal numeral of `n`: its digits in base ten, most significant
/// first, without leading zeros (`0` itself is the single digit `0`).
pub open spec fn decimal_digits(n: nat) -> Seq<char>
    decreases n,
{
    if n < 10 {
        seq![digit_char(n)]
    } else {
        decimal_digits(n / 10).push(digit_char(n % 10))
    }
}

/// Whether `s` is a decimal numeral in canonical form: a non-empty run of
/// digits that does not begin with `0`, unless it is the single digit `0`.
pub open spec fn is_canonical_numeral(s: Seq<char>) -> bool {
    s.len() > 0 && all_digits(s) && (s.len() > 1 ==> s.first() != '0')
}

/// A prefix of a digit sequence denotes no more than the whole sequence.
pub proof fn lemma_decimal_value_prefix(s: Seq<char>, k: int)
    requires
        0 <= k <= s.len(),
    ensures
        decimal_value(s.take(k)) <= decimal_value(s),
    decreases s.len() - k,
{
    if k < s.len() {
        lemma_decimal_value_prefix(s.drop_last(), k);
        assert(s.drop_last().take(k) =~= s.take(k));
    } else {
        assert(s.take(k) =~= s);
    }
}

/// A decimal numeral is a non-empty run of digits.
pub proof fn lemma_decimal_digits_are_digits(n: nat)
    ensures
        decimal_digits(n).len() > 0,
        all_digits(decimal_digits(n)),
    decreases n,
{
    if n >= 10 {
        lemma_decimal_digits_are_digits(n / 10);
    }
}

/// The decimal numeral of `n` denotes `n`.
pub proof fn lemma_decimal_round_trip(n: nat)
    ensures
        decimal_value(decimal_digits(n)) == n,
    decreases n,
{
    let digits = decimal_digits(n);
    if n < 10 {
        assert(digits.drop_last() =~= Seq::<char>::empty());
        assert(decimal_value(digits.drop_last()) == 0);
    } else {
        lemma_decimal_round_trip(n / 10);
        assert(digits.drop_last() =~= decimal_digits(n / 10));
    }
}

/// A run of digits that begins with a digit other than `0` denotes a positive
/// number.
pub proof fn lemma_decimal_value_positive(s: Seq<char>)
    requires
        s.len() > 0,
        all_digits(s),
        s.first() != '0',
    ensures
        decimal_value(s) > 0,
    decreases s.len(),
{
    let front = s.drop_last();
    if front.len() == 0 {
        assert(decimal_value(front) == 0);
        assert(s.last() == s.first());
    } else {
        assert(front.first() == s.first());
        lemma_decimal_value_positive(front);
    }
}

/// The value of `c` as a decimal digit, if it is one.
pub fn digit(c: char) -> (d: Option<u8>)
    ensures
        d == (if is_digit(c) {
            Some(digit_value(c) as u8)
        } else {
            None
        }),
{
    if '0' <= c && c <= '9' {
        Some(((c as u32) - ('0' as u32)) as u8)
    } else {
        None
    }
}

/// Reads `text` as an unsigned 64-bit decimal numeral.
pub fn parse_decimal(text: &[char]) -> (value: Option<u64>)
    ensures
        value == spec_parse_decimal(text@),
{
    if text.len() == 0 {
        return None;
    }
    let mut acc: u64 = 0;
    let mut i: usize = 0;
    while i < text.len()
        invariant
            i <= text.len(),
            all_digits(text@.take(i as int)),
            acc == decimal_value(text@.take(i as int)),
        decreases text.len() - i,
    {
        let ghost prefix = text@.take(i + 1);
        proof {
            assert(prefix.drop_last() =~= text@.take(i as int));
            assert(prefix.last() == text@[i as int]);
        }
        let d: u8 = match digit(text[i]) {
            Some(d) => d,
            None => {
                return None;
            },
        };
        let next: Option<u64> = match acc.checked_mul(10) {
            Some(tens) => tens.checked_add(d as u64),
            None => None,
        };
        match next {
            Some(v) => {
                acc = v;
            },
            None => {
                proof {
                    lemma_decimal_value_prefix(text@, i + 1);
                }
                return None;
            },
        }
        i += 1;
    }
    proof {
        assert(text@.take(i as int) =~= text@);
    }
    Some(acc)
}

/// The one-character string of the decimal digit that stands for `d`.
fn digit_str(d: u64) -> (s: &'static str)
    requires
        d < 10,
    ensures
        s@ == seq![digit_char(d as nat)],
{
    proof {
        reveal_strlit("0");
        reveal_strlit("1");
        reveal_strlit("2");
        reveal_strlit("3");
        reveal_strlit("4");
        reveal_strlit("5");
        reveal_strlit("6");
        reveal_strlit("7");
        reveal_strlit("8");
        reveal_strlit("9");
    }
    let s = match d {
        0 => "0",
        1 => "1",
        2 => "2",
        3 => "3",
        4 => "4",
        5 => "5",
        6 => "6",
        7 => "7",
        8 => "8",
        _ => "9",
    };
    assert(s@ =~= seq![digit_char(d as nat)]);
    s
}

/// Appends the decimal numeral of `n` to `text`.
pub fn push_decimal(text: &mut String, n: u64)
    ensures
        final(text)@ == old(text)@ + decimal_digits(n as nat),
    decreases n,
{
    if n >= 10 {
        push_decimal(text, n / 10);
    }
    text.append(digit_str(n % 10));
    assert(text@ =~= old(text)@ + decimal_digits(n as nat));
}

/// The decimal numeral of `n`.
pub fn decimal_text(n: u64) -> (text: String)
    ensures
        text@ == decimal_digits(n as nat),
{
    let mut text = String::new();
    push_decimal(&mut text, n);
    assert(text@ =~= decimal_digits(n as nat));
    text
}

} // verus!

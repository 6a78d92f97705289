//! Laws that relate the library's operations to one another.

use crate::decimal::{
    decimal_digits, decimal_value, digit_char, digit_value, is_canonical_numeral,
    is_digit, lemma_decimal_digits_are_digits, lemma_decimal_round_trip,
    lemma_decimal_value_positive, spec_parse_decimal,
};
use crate::size::{spec_parse, spec_to_bytes, ParseError, SizeInput};
use crate::text::{
    all_whitespace, lemma_trim_end_bound, lemma_trim_padded, lemma_trim_start_bound,
    spec_is_whitespace, spec_trim,
};
use crate::unit::{spec_resolve_unit, UnitTag};
use vstd::prelude::*;

verus! {

/// No decimal digit is white space.
pub proof fn law_digits_are_not_whitespace(c: char)
    requires
        is_digit(c),
    ensures
        !spec_is_whitespace(c),
{
}

/// Trimming cuts a sequence down to one stretch of it: everything before and
/// after the stretch is white space, and the stretch, unless empty, neither
/// begins nor ends with white space.
pub proof fn law_trim_strips_padding(s: Seq<char>) -> (bounds: (int, int))
    ensures
        0 <= bounds.0 <= bounds.1 <= s.len(),
        spec_trim(s) == s.subrange(bounds.0, bounds.1),
        all_whitespace(s.take(bounds.0)),
        all_whitespace(s.skip(bounds.1)),
        bounds.0 < bounds.1 ==> !spec_is_whitespace(s[bounds.0]) && !spec_is_whitespace(
            s[bounds.1 - 1],
        ),
{
    let start = lemma_trim_start_bound(s);
    let rest = s.skip(start);
    let kept = lemma_trim_end_bound(rest);
    assert(rest.take(kept) =~= s.subrange(start, start + kept));
    assert(rest.skip(kept) =~= s.skip(start + kept));
    (start, start + kept)
}

/// Writing a number gives a canonical numeral that denotes the number.
pub proof fn law_rendering_is_canonical(n: nat)
    ensures
        is_canonical_numeral(decimal_digits(n)),
        decimal_value(decimal_digits(n)) == n,
    decreases n,
{
    lemma_decimal_digits_are_digits(n);
    lemma_decimal_round_trip(n);
    if n >= 10 {
        let front = decimal_digits(n / 10);
        law_rendering_is_canonical(n / 10);
        assert(decimal_digits(n).first() == front.first());
        if front.len() == 1 {
            assert(front.drop_last() =~= Seq::<char>::empty());
            assert(decimal_value(front.drop_last()) == 0);
        }
    }
}

/// Writing the number that a canonical numeral denotes gives the numeral
/// back: every number has exactly one canonical numeral.
pub proof fn law_canonical_numeral_is_its_rendering(s: Seq<char>)
    requires
        is_canonical_numeral(s),
    ensures
        decimal_digits(decimal_value(s)) == s,
    decreases s.len(),
{
    let front = s.drop_last();
    let value = decimal_value(s);
    if front.len() == 0 {
        assert(decimal_value(front) == 0);
        assert(decimal_digits(value) =~= s);
    } else {
        assert(front.first() == s.first());
        assert(is_canonical_numeral(front));
        law_canonical_numeral_is_its_rendering(front);
        lemma_decimal_value_positive(front);
        assert(value / 10 == decimal_value(front));
        assert(value % 10 == digit_value(s.last()));
        assert(digit_char(digit_value(s.last())) == s.last());
        assert(front.push(s.last()) =~= s);
    }
}

/// Reading the numeral of any `n`, padded with any white space, gives `n`.
pub proof fn law_parse_decimal_reads_rendering(before: Seq<char>, n: u64, after: Seq<char>)
    requires
        all_whitespace(before),
        all_whitespace(after),
    ensures
        spec_parse_decimal(spec_trim(before + decimal_digits(n as nat) + after)) == Some(n),
{
    let digits = decimal_digits(n as nat);
    lemma_decimal_digits_are_digits(n as nat);
    law_digits_are_not_whitespace(digits.first());
    law_digits_are_not_whitespace(digits.last());
    lemma_trim_padded(before, digits, after);
    lemma_decimal_round_trip(n as nat);
}

/// Parsing reads back what was written: the decimal numeral of any `n`,
/// padded with any white space and followed by any two-character suffix,
/// parses to the magnitude `n` with the unit that the suffix names.
pub proof fn law_parse_reads_padded_numeral(
    before: Seq<char>,
    n: u64,
    after: Seq<char>,
    suffix: Seq<char>,
)
    requires
        all_whitespace(before),
        all_whitespace(after),
        suffix.len() == 2,
    ensures
        spec_parse(before + decimal_digits(n as nat) + after + suffix) == Ok::<
            SizeInput,
            ParseError,
        >(SizeInput { magnitude: n, unit: spec_resolve_unit(suffix) }),
{
    let digits = decimal_digits(n as nat);
    let token = before + digits + after + suffix;
    let split = token.len() - 2;
    assert(token.take(split) =~= before + digits + after);
    assert(token.skip(split) =~= suffix);
    law_parse_decimal_reads_rendering(before, n, after);
}

/// Parsing reads back what was written: the decimal numeral of any `n`
/// followed by any two-character suffix parses to the magnitude `n` with the
/// unit that the suffix names.
pub proof fn law_parse_reads_numeral(n: u64, suffix: Seq<char>)
    requires
        suffix.len() == 2,
    ensures
        spec_parse(decimal_digits(n as nat) + suffix) == Ok::<SizeInput, ParseError>(
            SizeInput { magnitude: n, unit: spec_resolve_unit(suffix) },
        ),
{
    let digits = decimal_digits(n as nat);
    let none = Seq::<char>::empty();
    law_parse_reads_padded_numeral(none, n, none, suffix);
    assert(none + digits + none + suffix =~= digits + suffix);
}

/// A numeral with no suffix after it loses its last two digits to the suffix:
/// the numeral of a number below a hundred leaves no magnitude and does not
/// parse, and that of any other `n` parses to `n / 100` bytes.
pub proof fn law_parse_bare_numeral(n: u64)
    ensures
        spec_parse(decimal_digits(n as nat)) == (if n >= 100 {
            Ok::<SizeInput, ParseError>(
                SizeInput { magnitude: (n / 100) as u64, unit: UnitTag::Bytes },
            )
        } else {
            Err::<SizeInput, ParseError>(ParseError)
        }),
{
    let token = decimal_digits(n as nat);
    let tens = decimal_digits((n / 10) as nat);
    let none = Seq::<char>::empty();
    if n < 10 {
        assert(token.len() == 1);
    } else if n < 100 {
        assert(tens.len() == 1);
        assert(token.take(0) =~= none);
        assert(spec_trim(none) == none);
    } else {
        let hundreds = decimal_digits((n / 100) as nat);
        let split = token.len() - 2;
        assert((n / 10) / 10 == n / 100);
        assert(tens == hundreds.push(digit_char(((n / 10) % 10) as nat)));
        assert(token.take(split) =~= none + hundreds + none);
        assert(is_digit(token.skip(split)[0]));
        law_parse_decimal_reads_rendering(none, (n / 100) as u64, none);
    }
}

/// A suffix names kilobytes, megabytes or gigabytes only when it is exactly
/// `kb`, `mb` or `gb`; every other suffix resolves to bytes.
pub proof fn law_unit_of_suffix(suffix: Seq<char>)
    ensures
        spec_resolve_unit(suffix) == UnitTag::Kilobytes <==> suffix == seq!['k', 'b'],
        spec_resolve_unit(suffix) == UnitTag::Megabytes <==> suffix == seq!['m', 'b'],
        spec_resolve_unit(suffix) == UnitTag::Gigabytes <==> suffix == seq!['g', 'b'],
        spec_resolve_unit(suffix) == UnitTag::Bytes <==> suffix != seq!['k', 'b'] && suffix
            != seq!['m', 'b'] && suffix != seq!['g', 'b'],
{
    assert(seq!['k', 'b'][0] == 'k');
    assert(seq!['m', 'b'][0] == 'm');
    assert(seq!['g', 'b'][0] == 'g');
}

/// The exact byte count of `n` of a unit whose scale factor is `factor`.
proof fn lemma_exact_bytes(n: u64, unit: UnitTag, factor: nat)
    requires
        factor == unit.spec_scale(),
    ensures
        (SizeInput { magnitude: n, unit }).exact_bytes() == n * factor,
{
}

/// The byte count is the magnitude scaled by one, a thousand, a million or a
/// billion, reduced modulo 2^64; where the scaled magnitude fits in 64 bits
/// it is the byte count itself.
pub proof fn law_to_bytes_scales(n: u64)
    ensures
        spec_to_bytes(SizeInput { magnitude: n, unit: UnitTag::Bytes }) == n,
        spec_to_bytes(SizeInput { magnitude: n, unit: UnitTag::Kilobytes }) == (n * 1_000)
            % 0x1_0000_0000_0000_0000,
        spec_to_bytes(SizeInput { magnitude: n, unit: UnitTag::Megabytes }) == (n * 1_000_000)
            % 0x1_0000_0000_0000_0000,
        spec_to_bytes(SizeInput { magnitude: n, unit: UnitTag::Gigabytes }) == (n
            * 1_000_000_000) % 0x1_0000_0000_0000_0000,
        n * 1_000 <= u64::MAX ==> spec_to_bytes(
            SizeInput { magnitude: n, unit: UnitTag::Kilobytes },
        ) == n * 1_000,
        n * 1_000_000 <= u64::MAX ==> spec_to_bytes(
            SizeInput { magnitude: n, unit: UnitTag::Megabytes },
        ) == n * 1_000_000,
        n * 1_000_000_000 <= u64::MAX ==> spec_to_bytes(
            SizeInput { magnitude: n, unit: UnitTag::Gigabytes },
        ) == n * 1_000_000_000,
{
    lemma_exact_bytes(n, UnitTag::Bytes, 1);
    lemma_exact_bytes(n, UnitTag::Kilobytes, 1_000);
    lemma_exact_bytes(n, UnitTag::Megabytes, 1_000_000);
    lemma_exact_bytes(n, UnitTag::Gigabytes, 1_000_000_000);
}

} // verus!

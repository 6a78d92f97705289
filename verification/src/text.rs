//! Character sequences: reading the characters of a string, and trimming
//! white space from both ends.

use vstd::prelude::*;
use vstd::slice::slice_subrange;

verus! {

/// Whether `c` is a white-space character: one of the code points U+0009 to
/// U+000D, U+0020, U+0085, U+00A0, U+1680, U+2000 to U+200A, U+2028, U+2029,
/// U+202F, U+205F and U+3000.
pub open spec fn spec_is_whitespace(c: char) -> bool {
    ||| '\u{9}' <= c <= '\u{d}'
    ||| c == ' '
    ||| c == '\u{85}'
    ||| c == '\u{a0}'
    ||| c == '\u{1680}'
    ||| '\u{2000}' <= c <= '\u{200a}'
    ||| c == '\u{2028}'
    ||| c == '\u{2029}'
    ||| c == '\u{202f}'
    ||| c == '\u{205f}'
    ||| c == '\u{3000}'
}

/// Whether every character of `s` is white space.
pub open spec fn all_whitespace(s: Seq<char>) -> bool {
    forall|i: int| 0 <= i < s.len() ==> spec_is_whitespace(#[trigger] s[i])
}

/// `s` without its leading white space.
pub open spec fn spec_trim_start(s: Seq<char>) -> Seq<char>
    decreases s.len(),
{
    if s.len() > 0 && spec_is_whitespace(s.first()) {
        spec_trim_start(s.drop_first())
    } else {
        s
    }
}

/// `s` without its trailing white space.
pub open spec fn spec_trim_end(s: Seq<char>) -> Seq<char>
    decreases s.len(),
{
    if s.len() > 0 && spec_is_whitespace(s.last()) {
        spec_trim_end(s.drop_last())
    } else {
        s
    }
}

/// `s` without its leading and trailing white space.
pub open spec fn spec_trim(s: Seq<char>) -> Seq<char> {
    spec_trim_end(spec_trim_start(s))
}

/// Whether `c` is a white-space character.
pub fn is_whitespace(c: char) -> (b: bool)
    ensures
        b == spec_is_whitespace(c),
{
    ('\u{9}' <= c && c <= '\u{d}') || c == ' ' || c == '\u{85}' || c == '\u{a0}' || c
        == '\u{1680}' || ('\u{2000}' <= c && c <= '\u{200a}') || c == '\u{2028}' || c
        == '\u{2029}' || c == '\u{202f}' || c == '\u{205f}' || c == '\u{3000}'
}

/// The characters of `text`, in order.
pub fn chars(text: &str) -> (cs: Vec<char>)
    ensures
        cs@ == text@,
{
    let mut cs: Vec<char> = Vec::new();
    for c in it: text.chars()
        invariant
            it.seq() == text@,
            cs@ == it.seq().take(it.index()),
    {
        cs.push(c);
    }
    cs
}

/// White space at the front of `s` does not change what trimming its start
/// leaves.
pub proof fn lemma_trim_start_skip(s: Seq<char>, k: int)
    requires
        0 <= k <= s.len(),
        all_whitespace(s.take(k)),
    ensures
        spec_trim_start(s) == spec_trim_start(s.skip(k)),
    decreases k,
{
    if k > 0 {
        assert(s.take(k)[0] == s[0]);
        assert(s.drop_first().take(k - 1) =~= s.take(k).drop_first());
        assert forall|i: int| 0 <= i < k - 1 implies spec_is_whitespace(
            #[trigger] s.drop_first().take(k - 1)[i],
        ) by {
            assert(s.drop_first().take(k - 1)[i] == s.take(k)[i + 1]);
        }
        lemma_trim_start_skip(s.drop_first(), k - 1);
        assert(s.drop_first().skip(k - 1) =~= s.skip(k));
    } else {
        assert(s.skip(0) =~= s);
    }
}

/// White space at the back of `s` does not change what trimming its end
/// leaves.
pub proof fn lemma_trim_end_take(s: Seq<char>, k: int)
    requires
        0 <= k <= s.len(),
        all_whitespace(s.skip(k)),
    ensures
        spec_trim_end(s) == spec_trim_end(s.take(k)),
    decreases s.len() - k,
{
    if k < s.len() {
        assert(s.skip(k)[s.len() - k - 1] == s.last());
        assert forall|i: int| 0 <= i < s.len() - 1 - k implies spec_is_whitespace(
            #[trigger] s.drop_last().skip(k)[i],
        ) by {
            assert(s.drop_last().skip(k)[i] == s.skip(k)[i]);
        }
        lemma_trim_end_take(s.drop_last(), k);
        assert(s.drop_last().take(k) =~= s.take(k));
    } else {
        assert(s.take(k) =~= s);
    }
}

/// Trimming the start of `s` leaves `s` from some index on; what stands before
/// that index is white space, and what stands at it is not.
pub proof fn lemma_trim_start_bound(s: Seq<char>) -> (start: int)
    ensures
        0 <= start <= s.len(),
        spec_trim_start(s) == s.skip(start),
        all_whitespace(s.take(start)),
        start < s.len() ==> !spec_is_whitespace(s[start]),
    decreases s.len(),
{
    if s.len() > 0 && spec_is_whitespace(s.first()) {
        let inner = lemma_trim_start_bound(s.drop_first());
        assert(s.drop_first().skip(inner) =~= s.skip(inner + 1));
        assert forall|i: int| 0 <= i < inner + 1 implies spec_is_whitespace(
            #[trigger] s.take(inner + 1)[i],
        ) by {
            if i > 0 {
                assert(s.take(inner + 1)[i] == s.drop_first().take(inner)[i - 1]);
            }
        }
        inner + 1
    } else {
        assert(s.skip(0) =~= s);
        0
    }
}

/// Trimming the end of `s` leaves `s` up to some index; what stands from that
/// index on is white space, and what stands just before it is not.
pub proof fn lemma_trim_end_bound(s: Seq<char>) -> (end: int)
    ensures
        0 <= end <= s.len(),
        spec_trim_end(s) == s.take(end),
        all_whitespace(s.skip(end)),
        0 < end ==> !spec_is_whitespace(s[end - 1]),
    decreases s.len(),
{
    if s.len() > 0 && spec_is_whitespace(s.last()) {
        let inner = lemma_trim_end_bound(s.drop_last());
        assert(s.drop_last().take(inner) =~= s.take(inner));
        assert forall|i: int| 0 <= i < s.len() - inner implies spec_is_whitespace(
            #[trigger] s.skip(inner)[i],
        ) by {
            if i < s.len() - inner - 1 {
                assert(s.skip(inner)[i] == s.drop_last().skip(inner)[i]);
            }
        }
        inner
    } else {
        assert(s.take(s.len() as int) =~= s);
        s.len() as int
    }
}

/// Trimming takes white-space padding off a core that neither begins nor ends
/// with white space, and leaves the core.
pub proof fn lemma_trim_padded(before: Seq<char>, core: Seq<char>, after: Seq<char>)
    requires
        all_whitespace(before),
        all_whitespace(after),
        core.len() > 0 ==> !spec_is_whitespace(core.first()) && !spec_is_whitespace(core.last()),
    ensures
        spec_trim(before + core + after) == core,
{
    let padded = before + core + after;
    let rest = core + after;
    assert(padded.take(before.len() as int) =~= before);
    assert(padded.skip(before.len() as int) =~= rest);
    lemma_trim_start_skip(padded, before.len() as int);
    if core.len() > 0 {
        assert(rest.first() == core.first());
        assert(rest.skip(core.len() as int) =~= after);
        assert(rest.take(core.len() as int) =~= core);
        lemma_trim_end_take(rest, core.len() as int);
    } else {
        assert(rest =~= after);
        assert(after.take(after.len() as int) =~= after);
        assert(after.skip(after.len() as int) =~= Seq::<char>::empty());
        lemma_trim_start_skip(after, after.len() as int);
        assert(core =~= Seq::<char>::empty());
    }
}

/// `text` without its leading and trailing white space.
pub fn trim(text: &[char]) -> (trimmed: &[char])
    ensures
        trimmed@ == spec_trim(text@),
{
    let mut start: usize = 0;
    while start < text.len() && is_whitespace(text[start])
        invariant
            start <= text.len(),
            all_whitespace(text@.take(start as int)),
        decreases text.len() - start,
    {
        start += 1;
    }
    let mut end: usize = text.len();
    while end > start && is_whitespace(text[end - 1])
        invariant
            start <= end <= text.len(),
            all_whitespace(text@.skip(end as int)),
        decreases end,
    {
        end -= 1;
        assert forall|i: int| 0 <= i < text.len() - end implies spec_is_whitespace(
            #[trigger] text@.skip(end as int)[i],
        ) by {
            if i > 0 {
                assert(text@.skip(end as int)[i] == text@.skip(end + 1)[i - 1]);
            }
        }
    }
    proof {
        let rest = text@.skip(start as int);
        lemma_trim_start_skip(text@, start as int);
        assert(spec_trim_start(rest) == rest);
        assert(rest =~= text@.subrange(start as int, text.len() as int));
        assert(rest.skip(end - start) =~= text@.skip(end as int));
        lemma_trim_end_take(rest, end - start);
        assert(rest.take(end - start) =~= text@.subrange(start as int, end as int));
        assert(spec_trim_end(rest.take(end - start)) == rest.take(end - start));
    }
    slice_subrange(text, start, end)
}

} // verus!

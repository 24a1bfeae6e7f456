//! What trimming, splitting and stripping leave of a text.

use crate::text;
use vstd::prelude::*;

verus! {

/// A text is split at its first separator: the two parts with the separator
/// between them are the text, and the first part has no separator.
pub proof fn law_split_at_the_first(s: Seq<char>, c: char, a: Seq<char>, b: Seq<char>)
    ensures
        text::split_first(s, c) == Some((a, b)) <==> s == a + seq![c] + b && !a.contains(c),
{
    text::lemma_first_index_bounds(s, c);
    let i = text::first_index(s, c);
    if text::split_first(s, c) == Some((a, b)) {
        assert(s =~= a + seq![c] + b);
        if a.contains(c) {
            let j = choose|j: int| 0 <= j < a.len() && a[j] == c;
            assert(s[j] == c);
        }
    }
    if s == a + seq![c] + b && !a.contains(c) {
        assert(s[a.len() as int] == c);
        if i < a.len() {
            assert(s[i] == a[i]);
            assert(a.contains(a[i]));
        }
        assert(i == a.len());
        assert(s.take(i) =~= a);
        assert(s.skip(i + 1) =~= b);
    }
}

/// A text is not split exactly where it has no separator.
pub proof fn law_split_or_not(s: Seq<char>, c: char)
    ensures
        text::split_first(s, c) is None <==> !s.contains(c),
{
    text::lemma_first_index_bounds(s, c);
    if s.contains(c) {
        let j = choose|j: int| 0 <= j < s.len() && s[j] == c;
        assert(s[j] == c);
    }
}

/// What trimming the front leaves is the text from some place on, with white
/// space before it and none at it.
proof fn lemma_trim_front(s: Seq<char>) -> (i: int)
    ensures
        0 <= i <= s.len(),
        text::trim_front(s) == s.skip(i),
        forall|j: int| 0 <= j < i ==> text::white_space(#[trigger] s[j]),
        i < s.len() ==> !text::white_space(s[i]),
    decreases s.len(),
{
    if s.len() > 0 && text::white_space(s[0]) {
        let k = lemma_trim_front(s.drop_first());
        assert(s.drop_first().skip(k) =~= s.skip(k + 1));
        assert forall|j: int| 0 <= j < k + 1 implies text::white_space(#[trigger] s[j]) by {
            if j > 0 {
                assert(s[j] == s.drop_first()[j - 1]);
            }
        }
        k + 1
    } else {
        assert(s.skip(0) =~= s);
        0
    }
}

/// What trimming the back leaves is the text up to some place, with white space
/// from it on and none before it.
proof fn lemma_trim_back(s: Seq<char>) -> (i: int)
    ensures
        0 <= i <= s.len(),
        text::trim_back(s) == s.take(i),
        forall|j: int| i <= j < s.len() ==> text::white_space(#[trigger] s[j]),
        i > 0 ==> !text::white_space(s[i - 1]),
    decreases s.len(),
{
    if s.len() > 0 && text::white_space(s.last()) {
        let k = lemma_trim_back(s.drop_last());
        assert(s.drop_last().take(k) =~= s.take(k));
        assert forall|j: int| k <= j < s.len() implies text::white_space(#[trigger] s[j]) by {
            if j < s.len() - 1 {
                assert(s[j] == s.drop_last()[j]);
            }
        }
        if k > 0 {
            assert(s.drop_last()[k - 1] == s[k - 1]);
        }
        k
    } else {
        assert(s.take(s.len() as int) =~= s);
        s.len() as int
    }
}

/// Trimming takes off white space at both ends and nothing else: what is left is
/// a stretch of the text with only white space before and behind it, and it
/// neither starts nor ends with white space.
pub proof fn law_trimming_leaves_the_middle(s: Seq<char>) -> (ends: (int, int))
    ensures
        0 <= ends.0 <= ends.1 <= s.len(),
        text::trim_text(s) == s.subrange(ends.0, ends.1),
        forall|j: int| 0 <= j < ends.0 ==> text::white_space(#[trigger] s[j]),
        forall|j: int| ends.1 <= j < s.len() ==> text::white_space(#[trigger] s[j]),
        ends.0 < ends.1 ==> !text::white_space(s[ends.0]) && !text::white_space(s[ends.1 - 1]),
{
    let i = lemma_trim_front(s);
    let rest = s.skip(i);
    let k = lemma_trim_back(rest);
    assert(rest.take(k) =~= s.subrange(i, i + k));
    assert forall|j: int| i + k <= j < s.len() implies text::white_space(#[trigger] s[j]) by {
        assert(s[j] == rest[j - i]);
    }
    if k > 0 {
        assert(rest[k - 1] == s[i + k - 1]);
    }
    (i, i + k)
}

/// A text without white space at its ends is not changed by trimming.
pub proof fn law_trimmed_stays(s: Seq<char>)
    requires
        s.len() > 0 ==> !text::white_space(s[0]) && !text::white_space(s.last()),
    ensures
        text::trim_text(s) == s,
{
}

/// The trailing run of a character goes, whatever its length, and nothing else
/// does.
pub proof fn law_trailing_run_goes(s: Seq<char>, c: char)
    ensures
        text::without_trailing_char(s.push(c), c) == text::without_trailing_char(s, c),
        s.len() == 0 || s.last() != c ==> text::without_trailing_char(s, c) == s,
{
    assert(s.push(c).drop_last() =~= s);
}

/// The trailing run of a text goes, whatever its length, and nothing else does.
pub proof fn law_trailing_text_goes(s: Seq<char>, suffix: Seq<char>)
    requires
        suffix.len() > 0,
    ensures
        text::without_trailing_text(s + suffix, suffix) == text::without_trailing_text(
            s,
            suffix,
        ),
        (forall|x: Seq<char>| #[trigger] (x + suffix) != s) ==> text::without_trailing_text(
            s,
            suffix,
        ) == s,
{
    let long = s + suffix;
    assert(long.skip(long.len() - suffix.len()) =~= suffix);
    assert(long.take(long.len() - suffix.len()) =~= s);
    if text::ends_with(s, suffix) {
        let x = s.take(s.len() - suffix.len());
        assert(x + suffix =~= s);
    }
}

/// A prefix is taken off exactly where the text is that prefix and the rest.
pub proof fn law_prefix_comes_off(s: Seq<char>, prefix: Seq<char>, rest: Seq<char>)
    ensures
        text::after_prefix(s, prefix) == Some(rest) <==> s == prefix + rest,
{
    if text::after_prefix(s, prefix) == Some(rest) {
        assert(s =~= prefix + rest);
    }
    if s == prefix + rest {
        assert(s.take(prefix.len() as int) =~= prefix);
        assert(s.skip(prefix.len() as int) =~= rest);
    }
}

/// White space is the blank, the control characters that move on, and the blanks
/// of Unicode; no character that a document starts or ends with is among it.
pub proof fn law_white_space(c: char)
    ensures
        c == ' ' || c == '\t' || c == '\n' || c == '\r' ==> text::white_space(c),
        0x21 <= c as u32 <= 0x7e ==> !text::white_space(c),
{
}

} // verus!

//! Fuzzy matching of a search pattern against a candidate text.
//!
//! Scores come from the skim algorithm of `fuzzy_matcher`, set to ignore
//! case; which candidates match at all is stated here exactly: the pattern's
//! characters must occur in order in the text, compared with ASCII case
//! folded.

use vstd::prelude::*;
use fuzzy_matcher::skim::SkimMatcherV2;
use fuzzy_matcher::FuzzyMatcher;

verus! {

/// Code point of `c` with ASCII capitals mapped to lower case.
pub open spec fn ascii_lower_code(c: char) -> u32 {
    if 65 <= (c as u32) && (c as u32) <= 90 {
        ((c as u32) + 32) as u32
    } else {
        c as u32
    }
}

/// Two characters are equal once ASCII case is folded.
pub open spec fn chars_match(a: char, b: char) -> bool {
    ascii_lower_code(a) == ascii_lower_code(b)
}

/// `pattern` occurs in `text` as a subsequence, ignoring ASCII case.
pub open spec fn fuzzy_matches(text: Seq<char>, pattern: Seq<char>) -> bool
    decreases text.len(),
{
    if pattern.len() == 0 {
        true
    } else if text.len() == 0 {
        false
    } else if chars_match(text[0], pattern[0]) {
        fuzzy_matches(text.drop_first(), pattern.drop_first())
    } else {
        fuzzy_matches(text.drop_first(), pattern)
    }
}

/// The score that the case-ignoring skim matcher gives `pattern` against
/// `text`.
pub uninterp spec fn skim_score(text: Seq<char>, pattern: Seq<char>) -> Option<i64>;

/// Relies on `fuzzy_matcher::skim::SkimMatcherV2::fuzzy_match`, with the
/// default settings but `ignore_case`: the result depends on the two strings
/// alone, and it is `Some` exactly when `cheap_matches` finds the pattern's
/// characters in order in the text, compared with ASCII case folded.
#[verifier::external_body]
pub(crate) fn skim_fuzzy_match(text: &str, pattern: &str) -> (r: Option<i64>)
    ensures
        r == skim_score(text@, pattern@),
        r.is_some() == fuzzy_matches(text@, pattern@),
{
    SkimMatcherV2::default().ignore_case().fuzzy_match(text, pattern)
}

/// Prepending a character to the text keeps a match.
proof fn lemma_match_extend_text(text: Seq<char>, pattern: Seq<char>)
    requires
        text.len() > 0,
        fuzzy_matches(text.drop_first(), pattern),
    ensures
        fuzzy_matches(text, pattern),
    decreases text.len(), 0int,
{
    if pattern.len() > 0 && chars_match(text[0], pattern[0]) {
        lemma_match_drop_pattern_head(text.drop_first(), pattern);
    }
}

/// Dropping the first pattern character keeps a match.
proof fn lemma_match_drop_pattern_head(text: Seq<char>, pattern: Seq<char>)
    requires
        pattern.len() > 0,
        fuzzy_matches(text, pattern),
    ensures
        fuzzy_matches(text, pattern.drop_first()),
    decreases text.len(), 1int,
{
    if text.len() > 0 {
        if !chars_match(text[0], pattern[0]) {
            lemma_match_drop_pattern_head(text.drop_first(), pattern);
        }
        lemma_match_extend_text(text, pattern.drop_first());
    }
}

/// A text that matches a pattern extended by one character also matches the
/// pattern itself: typing narrows the set of matches or leaves it equal.
pub proof fn lemma_fuzzy_match_narrows(text: Seq<char>, pattern: Seq<char>, c: char)
    requires
        fuzzy_matches(text, pattern.push(c)),
    ensures
        fuzzy_matches(text, pattern),
    decreases text.len(),
{
    if pattern.len() > 0 && text.len() > 0 {
        assert(pattern.push(c)[0] == pattern[0]);
        assert(pattern.push(c).drop_first() =~= pattern.drop_first().push(c));
        if chars_match(text[0], pattern[0]) {
            lemma_fuzzy_match_narrows(text.drop_first(), pattern.drop_first(), c);
        } else {
            lemma_fuzzy_match_narrows(text.drop_first(), pattern, c);
        }
    }
}

} // verus!

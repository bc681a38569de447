//! Cutting a text into grapheme clusters, words and path segments.
//!
//! The counting is done by the crate `unicode-segmentation`, the matching
//! by the crate `regex`.

use crate::text::{is_space, lemma_trimmed, trimmed};
use regex::Regex;
use unicode_segmentation::UnicodeSegmentation;
use vstd::prelude::*;

verus! {

/// The number of extended grapheme clusters of `s`: what
/// `UnicodeSegmentation::graphemes` counts for it.
pub uninterp spec fn grapheme_count(s: Seq<char>) -> nat;

/// The pattern of a last word: characters that are no white space, up to
/// the end of the text.
pub open spec fn last_word_pattern() -> Seq<char> {
    "[^\\s]+$"@
}

/// The pattern of a last path segment: characters that are no slash, up to
/// the end of the text.
pub open spec fn last_segment_pattern() -> Seq<char> {
    "[^/]+$"@
}

/// `s` without its last word: without the characters at its end that are
/// no white space. White space at the end of `s` keeps all of it.
pub open spec fn without_last_word(s: Seq<char>) -> Seq<char>
    decreases s.len(),
{
    if s.len() > 0 && !is_space(s.last()) {
        without_last_word(s.drop_last())
    } else {
        s
    }
}

/// The characters of `s` behind its last slash; all of `s` if it has none.
pub open spec fn last_segment(s: Seq<char>) -> Seq<char>
    decreases s.len(),
{
    if s.len() > 0 && s.last() != '/' {
        last_segment(s.drop_last()).push(s.last())
    } else {
        Seq::empty()
    }
}

/// Taking the last word away never makes a text longer, and it makes a
/// text shorter that ends in a character that is no white space.
pub proof fn lemma_without_last_word(s: Seq<char>)
    ensures
        without_last_word(s).len() <= s.len(),
        s.len() > 0 && !is_space(s.last()) ==> without_last_word(s).len() < s.len(),
    decreases s.len(),
{
    if s.len() > 0 && !is_space(s.last()) {
        lemma_without_last_word(s.drop_last());
    }
}

/// A text that is not empty gets shorter when its last word goes and the
/// rest is trimmed; of an empty text nothing is left.
pub proof fn lemma_dropping_shortens(s: Seq<char>)
    ensures
        s.len() > 0 ==> trimmed(without_last_word(s)).len() < s.len(),
        s.len() == 0 ==> trimmed(without_last_word(s)).len() == 0,
{
    lemma_without_last_word(s);
    lemma_trimmed(without_last_word(s));
}

/// Counts the extended grapheme clusters of `s` with
/// `UnicodeSegmentation::graphemes`. The count depends on the text alone and
/// is named `grapheme_count`. A cluster holds at least one character, so the
/// count is at most the number of characters.
#[verifier::external_body]
pub(crate) fn count_graphemes(s: &str) -> (n: usize)
    ensures
        n == grapheme_count(s@),
        n <= s@.len(),
{
    s.graphemes(true).count()
}

/// `Regex::replace_all`, for the pattern of a last word and an empty
/// replacement. Without the multi-line flag `$` is the end of the text, and
/// `\s` is Unicode's White_Space. The one match, if any, is the run of
/// characters that are no white space at the end, and it is taken out.
#[verifier::external_body]
pub(crate) fn regex_replace_all(pattern: &str, s: &str, replacement: &str) -> (r: String)
    requires
        pattern@ == last_word_pattern(),
        replacement@.len() == 0,
    ensures
        r@ == without_last_word(s@),
{
    Regex::new(pattern).unwrap().replace_all(s, replacement).into_owned()
}

/// `Regex::find`, for the pattern of a last path segment. Without the
/// multi-line flag `$` is the end of the text. The first match is the run of
/// characters that are no slash at the end; there is none where that run is
/// empty.
#[verifier::external_body]
pub(crate) fn regex_find(pattern: &str, s: &str) -> (r: Option<String>)
    requires
        pattern@ == last_segment_pattern(),
    ensures
        r is Some == (last_segment(s@).len() > 0),
        r matches Some(found) ==> found@ == last_segment(s@),
{
    Regex::new(pattern).unwrap().find(s).map(|m| m.as_str().to_string())
}

} // verus!

//! Taking HTML away from a text.
//!
//! Tags are stripped by the crate `voca_rs`, character references are
//! decoded by the crate `html-escape`.

use vstd::prelude::*;

verus! {

/// `s` without its HTML tags: what `voca_rs::strip::strip_tags` gives for
/// it.
pub uninterp spec fn without_tags(s: Seq<char>) -> Seq<char>;

/// `s` with its HTML character references decoded: what
/// `html_escape::decode_html_entities` gives for it.
pub uninterp spec fn entities_decoded(s: Seq<char>) -> Seq<char>;

/// `voca_rs::strip::strip_tags`. Its result depends on the text alone and is
/// named `without_tags`; nothing more is claimed of it.
#[verifier::external_body]
pub(crate) fn strip_tags(s: &str) -> (r: String)
    ensures
        r@ == without_tags(s@),
{
    voca_rs::strip::strip_tags(s)
}

/// `html_escape::decode_html_entities`. Its result depends on the text alone
/// and is named `entities_decoded`; nothing more is claimed of it.
#[verifier::external_body]
pub(crate) fn decode_html_entities(s: &str) -> (r: String)
    ensures
        r@ == entities_decoded(s@),
{
    html_escape::decode_html_entities(s).into_owned()
}

} // verus!

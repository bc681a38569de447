//! The length adapter: shortens a text to what a platform takes.
//!
//! Length is counted in extended grapheme clusters. A text that is too long
//! loses words from its end until what is left, together with a mark and a
//! link to the full text, fits.

use crate::posts::BskyPost;
use crate::segment::{
    count_graphemes, grapheme_count, last_segment, lemma_dropping_shortens, regex_find,
    regex_replace_all, without_last_word,
};
use crate::text::{concat, ends_in, trim, trimmed};
use vstd::prelude::*;
use vstd::string::*;

verus! {

/// The number of grapheme clusters that a Bluesky post may hold.
pub const BLUESKY_LIMIT: usize = 300;

/// The number of grapheme clusters that a toot may hold.
pub const MASTODON_LIMIT: usize = 500;

/// The text of an optional string.
pub open spec fn text_of(s: Option<String>) -> Option<Seq<char>> {
    match s {
        Some(t) => Some(t@),
        None => None,
    }
}

/// `kept` without as many of its last words as it takes for the rest,
/// followed by `tail`, to fit in `limit` grapheme clusters. At least one
/// word goes. Where no word is left to drop, the rest and the tail are the
/// result, whatever their length.
pub open spec fn shortened(kept: Seq<char>, tail: Seq<char>, limit: nat) -> Seq<char>
    decreases kept.len(),
{
    let rest = trimmed(without_last_word(kept));
    if grapheme_count(rest + tail) <= limit || rest.len() >= kept.len() {
        rest + tail
    } else {
        shortened(rest, tail, limit)
    }
}

/// What follows a shortened text on Bluesky: a mark and the address of the
/// toot, or nothing where the address is not known.
pub open spec fn bluesky_tail(url: Option<Seq<char>>) -> Seq<char> {
    match url {
        Some(u) => " … "@ + u,
        None => Seq::empty(),
    }
}

/// The text that goes to Bluesky for `text`: `text` trimmed, and shortened
/// as well if `text` holds more than `BLUESKY_LIMIT` grapheme clusters.
pub open spec fn bluesky_text(text: Seq<char>, url: Option<Seq<char>>) -> Seq<char> {
    if grapheme_count(text) <= BLUESKY_LIMIT {
        trimmed(text)
    } else {
        shortened(trimmed(text), bluesky_tail(url), BLUESKY_LIMIT as nat)
    }
}

/// Whether a shortened text is as short as asked: it fits in `limit`
/// grapheme clusters, or it is nothing but `tail`, which alone is too long.
pub open spec fn cut_to(r: Seq<char>, tail: Seq<char>, limit: nat) -> bool {
    grapheme_count(r) <= limit || (r == tail && grapheme_count(tail) > limit && tail.len()
        > limit)
}

/// The address of a Bluesky post on the web.
pub open spec fn permalink(handle: Seq<char>, key: Seq<char>) -> Seq<char> {
    "https://bsky.app/profile/"@ + handle + "/post/"@ + key
}

/// What follows a shortened text on Mastodon: a mark and the address of the
/// post on the web.
pub open spec fn mastodon_tail(handle: Seq<char>, uri: Seq<char>) -> Seq<char> {
    "… "@ + permalink(handle, last_segment(uri))
}

/// The text that goes to Mastodon for `text`, which comes from the post of
/// `handle` at `uri`: `text` itself, or `text` trimmed and shortened if it
/// holds more than `MASTODON_LIMIT` grapheme clusters.
pub open spec fn mastodon_text(text: Seq<char>, handle: Seq<char>, uri: Seq<char>) -> Seq<char> {
    if grapheme_count(text) <= MASTODON_LIMIT {
        text
    } else {
        shortened(trimmed(text), mastodon_tail(handle, uri), MASTODON_LIMIT as nat)
    }
}

/// Drops words from the end of `kept` until the rest and `tail` fit in
/// `limit` grapheme clusters. The result ends in `tail`. It is over the
/// limit only where nothing is left of `kept` and `tail` alone is too long.
pub fn drop_words(kept: &str, tail: &str, limit: usize) -> (r: String)
    ensures
        r@ == shortened(kept@, tail@, limit as nat),
        ends_in(r@, tail@),
        cut_to(r@, tail@, limit as nat),
{
    let mut left = String::from_str(kept);
    loop
        invariant
            shortened(left@, tail@, limit as nat) == shortened(kept@, tail@, limit as nat),
        decreases left@.len(),
    {
        let nothing_left = left.as_str().is_empty();
        proof {
            reveal_strlit("");
        }
        let cut = regex_replace_all("[^\\s]+$", left.as_str(), "");
        let rest = trim(cut.as_str());
        let candidate = concat(rest, tail);
        let count: usize = count_graphemes(candidate.as_str());
        proof {
            lemma_dropping_shortens(left@);
        }
        if count <= limit || nothing_left {
            assert(nothing_left ==> candidate@ =~= tail@);
            assert(candidate@.subrange(candidate@.len() - tail@.len(), candidate@.len() as int)
                =~= tail@);
            return candidate;
        }
        left = String::from_str(rest);
    }
}

/// Shortens a toot's text to what Bluesky takes. `toot_url` is the address
/// of the toot, which a shortened text links to.
///
/// A text of at most `BLUESKY_LIMIT` grapheme clusters comes back trimmed.
/// A longer one loses words, ends in the mark and the address, and holds at
/// most `BLUESKY_LIMIT` grapheme clusters, unless the mark and the address
/// alone hold more.
pub fn bsky_post_shorten(text: &str, toot_url: &Option<String>) -> (r: String)
    ensures
        r@ == bluesky_text(text@, text_of(*toot_url)),
        grapheme_count(text@) > BLUESKY_LIMIT ==> ends_in(r@, bluesky_tail(text_of(*toot_url)))
            && cut_to(r@, bluesky_tail(text_of(*toot_url)), BLUESKY_LIMIT as nat),
        grapheme_count(text@) > BLUESKY_LIMIT && *toot_url is None ==> grapheme_count(r@)
            <= BLUESKY_LIMIT,
{
    let kept = trim(text);
    if count_graphemes(text) <= BLUESKY_LIMIT {
        return String::from_str(kept);
    }
    let tail = match toot_url {
        Some(url) => concat(" … ", url.as_str()),
        None => String::new(),
    };
    drop_words(kept, tail.as_str(), BLUESKY_LIMIT)
}

/// The address on the web of the post with key `key` by the author with
/// handle `handle`.
pub fn bsky_permalink(handle: &str, key: &str) -> (link: String)
    ensures
        link@ == permalink(handle@, key@),
{
    let mut link = String::from_str("https://bsky.app/profile/");
    link.append(handle);
    link.append("/post/");
    link.append(key);
    link
}

/// Tests whether an address ends in a segment that is not empty.
pub fn has_last_segment(uri: &str) -> (found: bool)
    ensures
        found == (last_segment(uri@).len() > 0),
{
    let n: usize = uri.unicode_len();
    n > 0 && uri.get_char(n - 1) != '/'
}

/// Shortens the text of a Bluesky post to what Mastodon takes. A shortened
/// text links to `bsky_post` on the web, so the address of a post with a
/// text that is too long has to end in the post's key.
///
/// A text of at most `MASTODON_LIMIT` grapheme clusters comes back as it
/// is. A longer one is trimmed, loses words, ends in the mark and the link,
/// and holds at most `MASTODON_LIMIT` grapheme clusters, unless the mark
/// and the link alone hold more.
pub fn toot_shorten(text: &str, bsky_post: &BskyPost) -> (r: String)
    requires
        grapheme_count(text@) > MASTODON_LIMIT ==> last_segment(bsky_post.uri@).len() > 0,
    ensures
        r@ == mastodon_text(text@, bsky_post.author_handle@, bsky_post.uri@),
        grapheme_count(text@) > MASTODON_LIMIT ==> ends_in(
            r@,
            mastodon_tail(bsky_post.author_handle@, bsky_post.uri@),
        ) && cut_to(
            r@,
            mastodon_tail(bsky_post.author_handle@, bsky_post.uri@),
            MASTODON_LIMIT as nat,
        ),
        grapheme_count(r@) <= MASTODON_LIMIT || r@ == mastodon_tail(
            bsky_post.author_handle@,
            bsky_post.uri@,
        ),
{
    if count_graphemes(text) <= MASTODON_LIMIT {
        return String::from_str(text);
    }
    let kept = trim(text);
    let key = regex_find("[^/]+$", bsky_post.uri.as_str()).unwrap();
    let link = bsky_permalink(bsky_post.author_handle.as_str(), key.as_str());
    let tail = concat("… ", link.as_str());
    drop_words(kept, tail.as_str(), MASTODON_LIMIT)
}

/// Shortens the text of a Bluesky post to what Mastodon takes, if that can
/// be done: a text that is too long, from a post whose address does not end
/// in a key, cannot be linked to and gives `None`.
pub fn toot_shorten_checked(text: &str, bsky_post: &BskyPost) -> (r: Option<String>)
    ensures
        r is Some <==> (grapheme_count(text@) <= MASTODON_LIMIT || last_segment(
            bsky_post.uri@,
        ).len() > 0),
        r matches Some(short) ==> short@ == mastodon_text(
            text@,
            bsky_post.author_handle@,
            bsky_post.uri@,
        ),
{
    if count_graphemes(text) <= MASTODON_LIMIT || has_last_segment(bsky_post.uri.as_str()) {
        Some(toot_shorten(text, bsky_post))
    } else {
        None
    }
}

} // verus!

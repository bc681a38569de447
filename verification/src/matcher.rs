//! The equality matcher: whether a toot and a Bluesky post hold the same
//! content.

use crate::normalize::{
    bsky_post_unshorten_decode, is_readable, mastodon_toot_get_text, post_text, toot_text,
    unified, unify_post_content,
};
use crate::posts::{BskyPost, Toot};
use crate::shorten::{bluesky_text, bsky_post_shorten};
use vstd::prelude::*;

verus! {

/// Whether a toot and a Bluesky post count as the same content. Both are
/// replies or neither is, and in the form for comparison the post's text is
/// the toot's text, or the text that goes to Bluesky for the toot.
pub open spec fn posts_equal(toot: Toot, post: BskyPost) -> bool {
    let post_form = unified(post_text(post));
    &&& toot.is_reply() == post.is_reply
    &&& (unified(toot_text(toot)) == post_form || unified(
        bluesky_text(toot_text(toot), toot.source_url()),
    ) == post_form)
}

/// Whether a toot and a Bluesky post count as the same content. The post
/// is read only where both are replies or neither is.
pub fn toot_and_post_are_equal(toot: &Toot, bsky_post: &BskyPost) -> (equal: bool)
    requires
        toot.is_reply() == bsky_post.is_reply ==> is_readable(*bsky_post),
    ensures
        equal == posts_equal(*toot, *bsky_post),
{
    if toot.in_reply_to_id.is_some() != bsky_post.is_reply {
        return false;
    }
    let full_text = mastodon_toot_get_text(toot);
    let toot_form = unify_post_content(full_text.clone());
    let post_form = unify_post_content(bsky_post_unshorten_decode(bsky_post));
    if toot_form == post_form {
        return true;
    }
    let source_url = match &toot.reblog {
        Some(boost) => &boost.url,
        None => &toot.url,
    };
    let short = unify_post_content(bsky_post_shorten(full_text.as_str(), source_url));
    short == post_form
}

} // verus!

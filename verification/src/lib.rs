//! Decides what to mirror between a Mastodon account and a Bluesky account.
//!
//! The library works on two snapshots of posts, newest first, and answers
//! with the statuses that each side still lacks. Fetching and posting are
//! left to the caller.

pub mod attachments;
pub mod guard;
pub mod laws;
pub mod markup;
pub mod matcher;
pub mod normalize;
pub mod planner;
pub mod posts;
pub mod segment;
pub mod shorten;
pub mod status;
pub mod text;

pub use attachments::{bsky_get_attachments, toot_get_attachments, truncate_option_string};
pub use guard::{double_post_warnings, filter_posted_before, read_post_cache, PostCache};
pub use matcher::toot_and_post_are_equal;
pub use normalize::{
    bsky_post_unshorten_decode, bsky_post_unshorten_decode_checked, bsky_record_get_text,
    mastodon_toot_get_text, post_is_readable, unify_post_content,
};
pub use planner::{determine_posts, determine_posts_checked};
pub use posts::{
    Boost, BskyEmbed, BskyImage, BskyPost, BskyQuote, BskyRecord, Facet, Toot, TootAttachment,
};
pub use shorten::{bsky_post_shorten, toot_shorten, toot_shorten_checked};
pub use status::{NewMedia, NewStatus, StatusUpdates, SyncOptions};

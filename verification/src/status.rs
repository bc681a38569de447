//! The statuses that a cycle hands to the posting side, and its options.

use vstd::prelude::*;

verus! {

/// A link to a media file that is attached to a new status.
#[derive(Debug, Clone)]
pub struct NewMedia {
    pub attachment_url: String,
    pub alt_text: Option<String>,
}

/// What a `NewMedia` holds, as plain sequences of characters.
#[verifier::ext_equal]
pub struct MediaView {
    pub attachment_url: Seq<char>,
    pub alt_text: Option<Seq<char>>,
}

impl View for NewMedia {
    type V = MediaView;

    open spec fn view(&self) -> MediaView {
        MediaView {
            attachment_url: self.attachment_url@,
            alt_text: match self.alt_text {
                Some(alt) => Some(alt@),
                None => None,
            },
        }
    }
}

/// The views of a list of media links, in order.
pub open spec fn media_views(media: Seq<NewMedia>) -> Seq<MediaView> {
    media.map_values(|m: NewMedia| m@)
}

/// A new status for posting, with the media that should be attached to it.
#[derive(Debug)]
pub struct NewStatus {
    pub text: String,
    pub attachments: Vec<NewMedia>,
    /// Further statuses that reply to this one. Threads are not mirrored, so
    /// the planner leaves this empty.
    pub replies: Vec<NewStatus>,
    /// The status this one answers. The planner leaves it unset.
    pub in_reply_to_id: Option<String>,
}

/// What a `NewStatus` holds, as plain sequences.
#[verifier::ext_equal]
pub struct StatusView {
    pub text: Seq<char>,
    pub attachments: Seq<MediaView>,
    pub replies: Seq<StatusView>,
    pub in_reply_to_id: Option<Seq<char>>,
}

impl View for NewStatus {
    type V = StatusView;

    open spec fn view(&self) -> StatusView
        decreases self,
    {
        StatusView {
            text: self.text@,
            attachments: media_views(self.attachments@),
            replies: Seq::new(
                self.replies@.len(),
                |i: int|
                    if 0 <= i < self.replies@.len() {
                        self.replies@[i]@
                    } else {
                        arbitrary()
                    },
            ),
            in_reply_to_id: match self.in_reply_to_id {
                Some(id) => Some(id@),
                None => None,
            },
        }
    }
}

/// The views of a list of statuses, in order.
pub open spec fn status_views(statuses: Seq<NewStatus>) -> Seq<StatusView> {
    statuses.map_values(|s: NewStatus| s@)
}

/// New statuses that should be posted to Bluesky (`bsky_posts`) and to
/// Mastodon (`toots`).
#[derive(Debug)]
pub struct StatusUpdates {
    pub bsky_posts: Vec<NewStatus>,
    pub toots: Vec<NewStatus>,
}

/// Moves the items of `items` into a new list, last item first.
fn reversed(items: Vec<NewStatus>) -> (out: Vec<NewStatus>)
    ensures
        out@ == items@.reverse(),
{
    let mut items = items;
    let ghost all = items@;
    let mut out: Vec<NewStatus> = Vec::new();
    while items.len() > 0
        invariant
            items@.len() + out@.len() == all.len(),
            items@ == all.subrange(0, items@.len() as int),
            forall|k: int| 0 <= k < out@.len() ==> out@[k] == all[all.len() - 1 - k],
        decreases items@.len(),
    {
        let last = items.pop();
        match last {
            Some(status) => {
                out.push(status);
            },
            None => {},
        }
    }
    assert(out@ =~= all.reverse());
    out
}

impl StatusUpdates {
    /// Reverses the order of the statuses in both lists.
    pub fn reverse_order(&mut self)
        ensures
            final(self).bsky_posts@ == old(self).bsky_posts@.reverse(),
            final(self).toots@ == old(self).toots@.reverse(),
    {
        let mut bsky_posts: Vec<NewStatus> = Vec::new();
        let mut toots: Vec<NewStatus> = Vec::new();
        std::mem::swap(&mut self.bsky_posts, &mut bsky_posts);
        std::mem::swap(&mut self.toots, &mut toots);
        self.bsky_posts = reversed(bsky_posts);
        self.toots = reversed(toots);
    }
}

/// What a cycle mirrors besides plain posts, and the hashtag filters.
#[derive(Debug, Clone, Default)]
pub struct SyncOptions {
    /// Mirror boosts from Mastodon.
    pub sync_reblogs: bool,
    /// Mirror reposts from Bluesky.
    pub sync_reposts: bool,
    /// Mirror only the Bluesky posts that hold this text. Empty or unset:
    /// no filter.
    pub sync_hashtag_bluesky: Option<String>,
    /// Mirror only the toots that hold this text. Empty or unset: no filter.
    pub sync_hashtag_mastodon: Option<String>,
}

} // verus!

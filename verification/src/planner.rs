//! The sync planner: which posts of each side the other side still lacks.
//!
//! Both lists of posts come newest first. Each is walked from its newest
//! post on; the first post that the other side already has ends the walk,
//! since all older posts count as mirrored. One routine walks in either
//! direction.

use crate::attachments::{bsky_get_attachments, media_of_post, media_of_toot, toot_get_attachments};
use crate::matcher::{posts_equal, toot_and_post_are_equal};
use crate::normalize::{
    all_readable, bsky_post_unshorten_decode, is_readable, mastodon_toot_get_text, post_is_readable,
    post_text, toot_text,
};
use crate::posts::{BskyPost, Toot};
use crate::segment::grapheme_count;
use crate::shorten::{
    bluesky_tail, bluesky_text, bsky_post_shorten, mastodon_tail, BLUESKY_LIMIT, MASTODON_LIMIT,
};
use crate::status::{status_views, NewStatus, StatusUpdates, StatusView, SyncOptions};
use crate::text::{contains, holds_text, starts_with_char, trimmed};
use vstd::prelude::*;

verus! {

/// The direction of a walk: the side that gets the new statuses. A walk to
/// Mastodon goes over the Bluesky posts, a walk to Bluesky over the toots.
#[derive(Debug, Clone, Copy)]
pub enum Direction {
    ToMastodon,
    ToBluesky,
}

/// Whether `text` passes a hashtag filter: no filter is set, the filter is
/// empty, or `text` holds the filter's text.
pub open spec fn passes_filter(filter: Option<String>, text: Seq<char>) -> bool {
    match filter {
        Some(tag) => tag@.len() == 0 || holds_text(text, tag@),
        None => true,
    }
}

/// Whether a Bluesky post is left out of the walk: it is a reply, or it is
/// a repost and reposts are not mirrored.
pub open spec fn post_is_skipped(post: BskyPost, options: SyncOptions) -> bool {
    post.is_reply || (post.is_repost && !options.sync_reposts)
}

/// Whether a Bluesky post is on Mastodon already: a toot that is no reply
/// equals it.
pub open spec fn post_is_on_mastodon(post: BskyPost, toots: Seq<Toot>) -> bool {
    exists|j: int| 0 <= j < toots.len() && !toots[j].is_reply() && posts_equal(toots[j], post)
}

/// The new toot for a Bluesky post.
pub open spec fn toot_for_post(post: BskyPost) -> StatusView {
    StatusView {
        text: post_text(post),
        attachments: media_of_post(post),
        replies: Seq::empty(),
        in_reply_to_id: None,
    }
}

/// The text that goes to Bluesky for a toot.
pub open spec fn bluesky_copy(toot: Toot) -> Seq<char> {
    bluesky_text(toot_text(toot), toot.source_url())
}

/// Whether a toot is left out of the walk: it is a reply, it is a boost and
/// boosts are not mirrored, or its text for Bluesky begins with `@`, which
/// makes it a message to one user.
pub open spec fn toot_is_skipped(toot: Toot, options: SyncOptions) -> bool {
    ||| toot.is_reply()
    ||| (toot.is_boost() && !options.sync_reblogs)
    ||| (bluesky_copy(toot).len() > 0 && bluesky_copy(toot)[0] == '@')
}

/// Whether a toot is on Bluesky already: a post equals it.
pub open spec fn toot_is_on_bluesky(toot: Toot, posts: Seq<BskyPost>) -> bool {
    exists|j: int| 0 <= j < posts.len() && posts_equal(toot, posts[j])
}

/// The new Bluesky post for a toot.
pub open spec fn post_for_toot(toot: Toot) -> StatusView {
    StatusView {
        text: bluesky_copy(toot),
        attachments: media_of_toot(toot),
        replies: Seq::empty(),
        in_reply_to_id: None,
    }
}

/// The number of posts that a walk goes over.
pub open spec fn source_count(direction: Direction, toots: Seq<Toot>, posts: Seq<BskyPost>) -> nat {
    match direction {
        Direction::ToMastodon => posts.len(),
        Direction::ToBluesky => toots.len(),
    }
}

/// Whether the post at index `at` of the walk is a reply.
pub open spec fn source_is_reply(
    direction: Direction,
    toots: Seq<Toot>,
    posts: Seq<BskyPost>,
    at: int,
) -> bool {
    match direction {
        Direction::ToMastodon => posts[at].is_reply,
        Direction::ToBluesky => toots[at].is_reply(),
    }
}

/// Whether the post at index `at` of the walk is left out: it does not
/// count.
pub open spec fn source_is_skipped(
    direction: Direction,
    toots: Seq<Toot>,
    posts: Seq<BskyPost>,
    options: SyncOptions,
    at: int,
) -> bool {
    match direction {
        Direction::ToMastodon => post_is_skipped(posts[at], options),
        Direction::ToBluesky => toot_is_skipped(toots[at], options),
    }
}

/// Whether the post at index `at` of the walk is on the other side
/// already.
pub open spec fn source_is_mirrored(
    direction: Direction,
    toots: Seq<Toot>,
    posts: Seq<BskyPost>,
    at: int,
) -> bool {
    match direction {
        Direction::ToMastodon => post_is_on_mastodon(posts[at], toots),
        Direction::ToBluesky => toot_is_on_bluesky(toots[at], posts),
    }
}

/// The hashtag filter of a walk: the one for Bluesky posts on the way to
/// Mastodon, the one for toots on the way to Bluesky.
pub open spec fn filter_of(direction: Direction, options: SyncOptions) -> Option<String> {
    match direction {
        Direction::ToMastodon => options.sync_hashtag_bluesky,
        Direction::ToBluesky => options.sync_hashtag_mastodon,
    }
}

/// The text of the post at index `at` of the walk that the hashtag filter
/// reads. For a toot this is its full text, not the shortened one.
pub open spec fn filtered_text(
    direction: Direction,
    toots: Seq<Toot>,
    posts: Seq<BskyPost>,
    at: int,
) -> Seq<char> {
    match direction {
        Direction::ToMastodon => post_text(posts[at]),
        Direction::ToBluesky => toot_text(toots[at]),
    }
}

/// The new status for the post at index `at` of the walk.
pub open spec fn status_for(
    direction: Direction,
    toots: Seq<Toot>,
    posts: Seq<BskyPost>,
    at: int,
) -> StatusView {
    match direction {
        Direction::ToMastodon => toot_for_post(posts[at]),
        Direction::ToBluesky => post_for_toot(toots[at]),
    }
}

/// The new statuses for the posts from index `from` of the walk on, newest
/// first. A post that does not count or does not pass the filter is passed
/// over; a post that counts and is on the other side already ends the
/// walk.
pub open spec fn new_statuses_from(
    direction: Direction,
    toots: Seq<Toot>,
    posts: Seq<BskyPost>,
    options: SyncOptions,
    from: int,
) -> Seq<StatusView>
    decreases source_count(direction, toots, posts) - from,
{
    if from < 0 || from >= source_count(direction, toots, posts) {
        Seq::empty()
    } else if source_is_skipped(direction, toots, posts, options, from) {
        new_statuses_from(direction, toots, posts, options, from + 1)
    } else if source_is_mirrored(direction, toots, posts, from) {
        Seq::empty()
    } else if !passes_filter(
        filter_of(direction, options),
        filtered_text(direction, toots, posts, from),
    ) {
        new_statuses_from(direction, toots, posts, options, from + 1)
    } else {
        seq![status_for(direction, toots, posts, from)] + new_statuses_from(
            direction,
            toots,
            posts,
            options,
            from + 1,
        )
    }
}

/// The new statuses of a walk, oldest first.
pub open spec fn new_statuses(
    direction: Direction,
    toots: Seq<Toot>,
    posts: Seq<BskyPost>,
    options: SyncOptions,
) -> Seq<StatusView> {
    new_statuses_from(direction, toots, posts, options, 0).reverse()
}

/// The toots that Mastodon still lacks, oldest first.
pub open spec fn new_toots(toots: Seq<Toot>, posts: Seq<BskyPost>, options: SyncOptions) -> Seq<
    StatusView,
> {
    new_statuses(Direction::ToMastodon, toots, posts, options)
}

/// The posts that Bluesky still lacks, oldest first.
pub open spec fn new_bsky_posts(
    toots: Seq<Toot>,
    posts: Seq<BskyPost>,
    options: SyncOptions,
) -> Seq<StatusView> {
    new_statuses(Direction::ToBluesky, toots, posts, options)
}

/// Whether `text` is within what Mastodon takes, or is nothing but the
/// mark and the link to one of `posts`.
pub open spec fn fits_mastodon(text: Seq<char>, posts: Seq<BskyPost>) -> bool {
    grapheme_count(text) <= MASTODON_LIMIT || exists|j: int|
        0 <= j < posts.len() && text == mastodon_tail(
            (#[trigger] posts[j]).author_handle@,
            posts[j].uri@,
        )
}

/// Whether `text` is within what Bluesky takes, or is nothing but the mark
/// and the link to one of `toots`, or is the text of one of `toots` that
/// is within what Bluesky takes, without the white space around it.
pub open spec fn fits_bluesky(text: Seq<char>, toots: Seq<Toot>) -> bool {
    grapheme_count(text) <= BLUESKY_LIMIT || exists|j: int|
        0 <= j < toots.len() && (text == bluesky_tail((#[trigger] toots[j]).source_url()) || (text
            == trimmed(toot_text(toots[j])) && grapheme_count(toot_text(toots[j]))
            <= BLUESKY_LIMIT))
}

/// Whether `text` is within what the side of `direction` takes, or is
/// nothing but the mark and the link to one of the posts of the walk.
pub open spec fn fits(
    direction: Direction,
    text: Seq<char>,
    toots: Seq<Toot>,
    posts: Seq<BskyPost>,
) -> bool {
    match direction {
        Direction::ToMastodon => fits_mastodon(text, posts),
        Direction::ToBluesky => fits_bluesky(text, toots),
    }
}

/// Reversing a list of statuses reverses the list of their views.
pub proof fn lemma_views_reverse(statuses: Seq<NewStatus>)
    ensures
        status_views(statuses.reverse()) == status_views(statuses).reverse(),
{
    assert(status_views(statuses.reverse()) =~= status_views(statuses).reverse());
}

/// Tests whether `text` passes a hashtag filter.
pub fn filter_lets_pass(filter: &Option<String>, text: &str) -> (passes: bool)
    ensures
        passes == passes_filter(*filter, text@),
{
    match filter {
        Some(tag) => tag.as_str().is_empty() || contains(text, tag.as_str()),
        None => true,
    }
}

/// Tests whether a toot that is no reply equals the Bluesky post.
fn is_on_mastodon(bsky_post: &BskyPost, mastodon_statuses: &[Toot]) -> (found: bool)
    requires
        is_readable(*bsky_post),
    ensures
        found == post_is_on_mastodon(*bsky_post, mastodon_statuses@),
{
    let mut j: usize = 0;
    while j < mastodon_statuses.len()
        invariant
            j <= mastodon_statuses@.len(),
            is_readable(*bsky_post),
            forall|k: int|
                0 <= k < j ==> mastodon_statuses@[k].is_reply() || !posts_equal(
                    mastodon_statuses@[k],
                    *bsky_post,
                ),
        decreases mastodon_statuses@.len() - j,
    {
        let toot = &mastodon_statuses[j];
        if toot.in_reply_to_id.is_none() && toot_and_post_are_equal(toot, bsky_post) {
            return true;
        }
        j += 1;
    }
    false
}

/// Tests whether a Bluesky post equals the toot.
fn is_on_bluesky(toot: &Toot, bsky_statuses: &[BskyPost]) -> (found: bool)
    requires
        !toot.is_reply(),
        all_readable(bsky_statuses@),
    ensures
        found == toot_is_on_bluesky(*toot, bsky_statuses@),
{
    let mut j: usize = 0;
    while j < bsky_statuses.len()
        invariant
            j <= bsky_statuses@.len(),
            !toot.is_reply(),
            all_readable(bsky_statuses@),
            forall|k: int| 0 <= k < j ==> !posts_equal(*toot, bsky_statuses@[k]),
        decreases bsky_statuses@.len() - j,
    {
        if toot_and_post_are_equal(toot, &bsky_statuses[j]) {
            return true;
        }
        j += 1;
    }
    false
}

/// What a walk does with a post.
enum Step {
    /// The post is passed over.
    Pass,
    /// The post is on the other side already: the walk ends.
    End,
    /// The post is mirrored as this status.
    Mirror(NewStatus),
}

/// Whether `step` is what a walk does with the post at index `at`.
spec fn is_step_for(
    step: Step,
    direction: Direction,
    toots: Seq<Toot>,
    posts: Seq<BskyPost>,
    options: SyncOptions,
    at: int,
) -> bool {
    let skipped = source_is_skipped(direction, toots, posts, options, at);
    let mirrored = source_is_mirrored(direction, toots, posts, at);
    let passes = passes_filter(
        filter_of(direction, options),
        filtered_text(direction, toots, posts, at),
    );
    match step {
        Step::Pass => skipped || (!mirrored && !passes),
        Step::End => !skipped && mirrored,
        Step::Mirror(status) => !skipped && !mirrored && passes && status@ == status_for(
            direction,
            toots,
            posts,
            at,
        ) && fits(direction, status.text@, toots, posts),
    }
}

/// Decides what the walk to Mastodon does with the Bluesky post at index
/// `at`.
fn step_to_mastodon(
    mastodon_statuses: &[Toot],
    bsky_statuses: &[BskyPost],
    options: &SyncOptions,
    at: usize,
) -> (step: Step)
    requires
        all_readable(bsky_statuses@),
        at < bsky_statuses@.len(),
    ensures
        is_step_for(
            step,
            Direction::ToMastodon,
            mastodon_statuses@,
            bsky_statuses@,
            *options,
            at as int,
        ),
{
    let post = &bsky_statuses[at];
    if post.is_reply || (post.is_repost && !options.sync_reposts) {
        return Step::Pass;
    }
    if is_on_mastodon(post, mastodon_statuses) {
        return Step::End;
    }
    let text = bsky_post_unshorten_decode(post);
    if !filter_lets_pass(&options.sync_hashtag_bluesky, text.as_str()) {
        return Step::Pass;
    }
    let status = NewStatus {
        text,
        attachments: bsky_get_attachments(post),
        replies: Vec::new(),
        in_reply_to_id: None,
    };
    assert(status@.replies =~= Seq::empty());
    assert(status@ =~= toot_for_post(*post));
    Step::Mirror(status)
}

/// Decides what the walk to Bluesky does with the toot at index `at`.
fn step_to_bluesky(
    mastodon_statuses: &[Toot],
    bsky_statuses: &[BskyPost],
    options: &SyncOptions,
    at: usize,
) -> (step: Step)
    requires
        all_readable(bsky_statuses@),
        at < mastodon_statuses@.len(),
    ensures
        is_step_for(
            step,
            Direction::ToBluesky,
            mastodon_statuses@,
            bsky_statuses@,
            *options,
            at as int,
        ),
{
    let toot = &mastodon_statuses[at];
    if toot.in_reply_to_id.is_some() {
        return Step::Pass;
    }
    if toot.reblog.is_some() && !options.sync_reblogs {
        return Step::Pass;
    }
    let fulltext = mastodon_toot_get_text(toot);
    let source_url = match &toot.reblog {
        Some(boost) => &boost.url,
        None => &toot.url,
    };
    let text = bsky_post_shorten(fulltext.as_str(), source_url);
    assert(fits_bluesky(text@, mastodon_statuses@)) by {
        assert(mastodon_statuses@[at as int] == *toot);
    }
    if starts_with_char(text.as_str(), '@') {
        return Step::Pass;
    }
    if is_on_bluesky(toot, bsky_statuses) {
        return Step::End;
    }
    if !filter_lets_pass(&options.sync_hashtag_mastodon, fulltext.as_str()) {
        return Step::Pass;
    }
    let status = NewStatus {
        text,
        attachments: toot_get_attachments(toot),
        replies: Vec::new(),
        in_reply_to_id: None,
    };
    assert(status@.replies =~= Seq::empty());
    assert(status@ =~= post_for_toot(*toot));
    Step::Mirror(status)
}

/// Walks over the posts of one side, newest first, and collects the
/// statuses that the other side still lacks, newest first.
fn walk(
    direction: Direction,
    mastodon_statuses: &[Toot],
    bsky_statuses: &[BskyPost],
    options: &SyncOptions,
) -> (found: Vec<NewStatus>)
    requires
        all_readable(bsky_statuses@),
    ensures
        status_views(found@) == new_statuses_from(
            direction,
            mastodon_statuses@,
            bsky_statuses@,
            *options,
            0,
        ),
        forall|k: int|
            0 <= k < found@.len() ==> fits(
                direction,
                (#[trigger] found@[k]).text@,
                mastodon_statuses@,
                bsky_statuses@,
            ),
{
    let count: usize = match direction {
        Direction::ToMastodon => bsky_statuses.len(),
        Direction::ToBluesky => mastodon_statuses.len(),
    };
    let mut found: Vec<NewStatus> = Vec::new();
    let ghost all = new_statuses_from(direction, mastodon_statuses@, bsky_statuses@, *options, 0);
    let mut i: usize = 0;
    assert(status_views(found@) + all =~= all);
    while i < count
        invariant
            i <= count,
            count == source_count(direction, mastodon_statuses@, bsky_statuses@),
            all_readable(bsky_statuses@),
            all == new_statuses_from(direction, mastodon_statuses@, bsky_statuses@, *options, 0),
            forall|k: int|
                0 <= k < found@.len() ==> fits(
                    direction,
                    (#[trigger] found@[k]).text@,
                    mastodon_statuses@,
                    bsky_statuses@,
                ),
            status_views(found@) + new_statuses_from(
                direction,
                mastodon_statuses@,
                bsky_statuses@,
                *options,
                i as int,
            ) == all,
        decreases count - i,
    {
        let step = match direction {
            Direction::ToMastodon => step_to_mastodon(
                mastodon_statuses,
                bsky_statuses,
                options,
                i,
            ),
            Direction::ToBluesky => step_to_bluesky(mastodon_statuses, bsky_statuses, options, i),
        };
        let ghost rest = new_statuses_from(
            direction,
            mastodon_statuses@,
            bsky_statuses@,
            *options,
            i + 1,
        );
        match step {
            Step::Pass => {},
            Step::End => {
                assert(status_views(found@) + Seq::<StatusView>::empty() =~= status_views(found@));
                return found;
            },
            Step::Mirror(status) => {
                let ghost before = status_views(found@);
                let ghost earlier = found@;
                found.push(status);
                assert(status_views(found@) + rest =~= before + (seq![status@] + rest));
                assert forall|k: int| 0 <= k < found@.len() implies fits(
                    direction,
                    (#[trigger] found@[k]).text@,
                    mastodon_statuses@,
                    bsky_statuses@,
                ) by {
                    if k < earlier.len() {
                        assert(found@[k] == earlier[k]);
                    }
                }
            },
        }
        i += 1;
    }
    assert(status_views(found@) + Seq::<StatusView>::empty() =~= status_views(found@));
    found
}

/// Decides what each side still lacks.
///
/// Both lists are expected newest first, as the servers give them. The
/// result holds the statuses to post on Bluesky and on Mastodon, oldest
/// first, so that they are posted in the order in which they were written.
/// Each text is within what its side takes, unless it is nothing but the
/// mark and a link that alone are too long.
pub fn determine_posts(
    mastodon_statuses: &[Toot],
    bsky_statuses: &[BskyPost],
    options: &SyncOptions,
) -> (updates: StatusUpdates)
    requires
        all_readable(bsky_statuses@),
    ensures
        status_views(updates.toots@) == new_toots(mastodon_statuses@, bsky_statuses@, *options),
        status_views(updates.bsky_posts@) == new_bsky_posts(
            mastodon_statuses@,
            bsky_statuses@,
            *options,
        ),
        forall|i: int|
            0 <= i < updates.toots@.len() ==> fits_mastodon(
                (#[trigger] updates.toots@[i]).text@,
                bsky_statuses@,
            ),
        forall|i: int|
            0 <= i < updates.bsky_posts@.len() ==> fits_bluesky(
                (#[trigger] updates.bsky_posts@[i]).text@,
                mastodon_statuses@,
            ),
{
    let toots = walk(Direction::ToMastodon, mastodon_statuses, bsky_statuses, options);
    let bsky_posts = walk(Direction::ToBluesky, mastodon_statuses, bsky_statuses, options);
    let mut updates = StatusUpdates { bsky_posts, toots };
    let ghost newest_first = updates;
    proof {
        lemma_views_reverse(updates.toots@);
        lemma_views_reverse(updates.bsky_posts@);
    }
    updates.reverse_order();
    assert forall|i: int| 0 <= i < updates.toots@.len() implies fits_mastodon(
        (#[trigger] updates.toots@[i]).text@,
        bsky_statuses@,
    ) by {
        let k: int = newest_first.toots@.len() - 1 - i;
        assert(updates.toots@[i] == newest_first.toots@[k]);
        assert(fits(
            Direction::ToMastodon,
            newest_first.toots@[k].text@,
            mastodon_statuses@,
            bsky_statuses@,
        ));
    }
    assert forall|i: int| 0 <= i < updates.bsky_posts@.len() implies fits_bluesky(
        (#[trigger] updates.bsky_posts@[i]).text@,
        mastodon_statuses@,
    ) by {
        let k: int = newest_first.bsky_posts@.len() - 1 - i;
        assert(updates.bsky_posts@[i] == newest_first.bsky_posts@[k]);
        assert(fits(
            Direction::ToBluesky,
            newest_first.bsky_posts@[k].text@,
            mastodon_statuses@,
            bsky_statuses@,
        ));
    }
    updates
}

/// Tests whether every post of the list that is no reply can be read.
pub fn posts_are_readable(bsky_statuses: &[BskyPost]) -> (ok: bool)
    ensures
        ok == all_readable(bsky_statuses@),
{
    let mut i: usize = 0;
    while i < bsky_statuses.len()
        invariant
            i <= bsky_statuses@.len(),
            forall|k: int|
                0 <= k < i && !bsky_statuses@[k].is_reply ==> is_readable(
                    #[trigger] bsky_statuses@[k],
                ),
        decreases bsky_statuses@.len() - i,
    {
        let post = &bsky_statuses[i];
        if !post.is_reply && !post_is_readable(post) {
            return false;
        }
        i += 1;
    }
    true
}

/// Decides what each side still lacks, if every Bluesky post that is no
/// reply can be read; `None` where one cannot.
pub fn determine_posts_checked(
    mastodon_statuses: &[Toot],
    bsky_statuses: &[BskyPost],
    options: &SyncOptions,
) -> (updates: Option<StatusUpdates>)
    ensures
        updates is Some <==> all_readable(bsky_statuses@),
        updates matches Some(found) ==> status_views(found.toots@) == new_toots(
            mastodon_statuses@,
            bsky_statuses@,
            *options,
        ) && status_views(found.bsky_posts@) == new_bsky_posts(
            mastodon_statuses@,
            bsky_statuses@,
            *options,
        ),
{
    if posts_are_readable(bsky_statuses) {
        Some(determine_posts(mastodon_statuses, bsky_statuses, options))
    } else {
        None
    }
}

} // verus!

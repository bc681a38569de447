//! What holds of the planner, the matcher and the normalizer together.
//!
//! Each law is a proof over the specification functions that the
//! contracts of the library use.

use crate::matcher::posts_equal;
use crate::normalize::{flattened, post_text, record_text, toot_text};
use crate::planner::{
    bluesky_copy, filter_of, filtered_text, new_bsky_posts, new_statuses, new_statuses_from,
    new_toots, passes_filter, source_count, source_is_mirrored, source_is_reply,
    source_is_skipped, status_for, Direction,
};
use crate::posts::{BskyPost, Toot};
use crate::segment::grapheme_count;
use crate::shorten::{text_of, MASTODON_LIMIT};
use crate::status::{StatusView, SyncOptions};
use crate::text::{holds_text, occurs_at};
use vstd::prelude::*;

verus! {

/// Whether the walk ends at index `at`: the post there counts and is on
/// the other side already.
pub open spec fn ends_walk(
    direction: Direction,
    toots: Seq<Toot>,
    posts: Seq<BskyPost>,
    options: SyncOptions,
    at: int,
) -> bool {
    !source_is_skipped(direction, toots, posts, options, at) && source_is_mirrored(
        direction,
        toots,
        posts,
        at,
    )
}

/// Whether the post at index `at` of the walk is due: it counts, it passes
/// the hashtag filter, and the walk does not end at it or before it.
pub open spec fn is_due(
    direction: Direction,
    toots: Seq<Toot>,
    posts: Seq<BskyPost>,
    options: SyncOptions,
    at: int,
) -> bool {
    &&& 0 <= at < source_count(direction, toots, posts)
    &&& !source_is_skipped(direction, toots, posts, options, at)
    &&& passes_filter(filter_of(direction, options), filtered_text(direction, toots, posts, at))
    &&& forall|k: int| 0 <= k <= at ==> !#[trigger] ends_walk(direction, toots, posts, options, k)
}

/// Whether `status` is the new status for a post of the walk that is due.
pub open spec fn is_status_for_due_post(
    status: StatusView,
    direction: Direction,
    toots: Seq<Toot>,
    posts: Seq<BskyPost>,
    options: SyncOptions,
) -> bool {
    exists|j: int| #[trigger]
        is_due(direction, toots, posts, options, j) && status == status_for(
            direction,
            toots,
            posts,
            j,
        )
}

/// Whether `status` is the new status for a post of the walk that is no
/// reply.
pub open spec fn is_status_for_no_reply(
    status: StatusView,
    direction: Direction,
    toots: Seq<Toot>,
    posts: Seq<BskyPost>,
) -> bool {
    exists|j: int|
        0 <= j < source_count(direction, toots, posts) && !#[trigger] source_is_reply(
            direction,
            toots,
            posts,
            j,
        ) && status == status_for(direction, toots, posts, j)
}

/// Whether `status` is the new status for a post of the walk whose text,
/// as the hashtag filter reads it, holds `tag`.
pub open spec fn is_status_for_post_holding(
    status: StatusView,
    direction: Direction,
    toots: Seq<Toot>,
    posts: Seq<BskyPost>,
    tag: Seq<char>,
) -> bool {
    exists|j: int|
        0 <= j < source_count(direction, toots, posts) && holds_text(
            #[trigger] filtered_text(direction, toots, posts, j),
            tag,
        ) && status == status_for(direction, toots, posts, j)
}

/// Whether the newest post of the walk that counts, if there is one, is on
/// the other side already.
pub open spec fn newest_is_mirrored(
    direction: Direction,
    toots: Seq<Toot>,
    posts: Seq<BskyPost>,
    options: SyncOptions,
) -> bool {
    forall|j: int|
        0 <= j < source_count(direction, toots, posts) && !#[trigger] source_is_skipped(
            direction,
            toots,
            posts,
            options,
            j,
        ) && (forall|k: int|
            0 <= k < j ==> #[trigger] source_is_skipped(direction, toots, posts, options, k))
            ==> source_is_mirrored(direction, toots, posts, j)
}

proof fn lemma_new_status_has_source(
    direction: Direction,
    toots: Seq<Toot>,
    posts: Seq<BskyPost>,
    options: SyncOptions,
    from: int,
    i: int,
) -> (j: int)
    requires
        0 <= from,
        0 <= i < new_statuses_from(direction, toots, posts, options, from).len(),
        forall|k: int| 0 <= k < from ==> !#[trigger] ends_walk(direction, toots, posts, options, k),
    ensures
        from <= j,
        is_due(direction, toots, posts, options, j),
        new_statuses_from(direction, toots, posts, options, from)[i] == status_for(
            direction,
            toots,
            posts,
            j,
        ),
    decreases source_count(direction, toots, posts) - from,
{
    if source_is_skipped(direction, toots, posts, options, from) || !passes_filter(
        filter_of(direction, options),
        filtered_text(direction, toots, posts, from),
    ) {
        if ends_walk(direction, toots, posts, options, from) {
            // The walk ends here, so nothing is left from here on.
            assert(false);
        }
        lemma_new_status_has_source(direction, toots, posts, options, from + 1, i)
    } else if i == 0 {
        from
    } else {
        lemma_new_status_has_source(direction, toots, posts, options, from + 1, i - 1)
    }
}

proof fn lemma_due_post_has_status(
    direction: Direction,
    toots: Seq<Toot>,
    posts: Seq<BskyPost>,
    options: SyncOptions,
    from: int,
    j: int,
)
    requires
        0 <= from <= j,
        is_due(direction, toots, posts, options, j),
    ensures
        new_statuses_from(direction, toots, posts, options, from).contains(
            status_for(direction, toots, posts, j),
        ),
    decreases j - from,
{
    let list = new_statuses_from(direction, toots, posts, options, from);
    let status = status_for(direction, toots, posts, j);
    assert(!ends_walk(direction, toots, posts, options, from));
    if from == j {
        assert(list[0] == status);
    } else {
        lemma_due_post_has_status(direction, toots, posts, options, from + 1, j);
        let rest = new_statuses_from(direction, toots, posts, options, from + 1);
        let at: int = choose|at: int| 0 <= at < rest.len() && rest[at] == status;
        if source_is_skipped(direction, toots, posts, options, from) || !passes_filter(
            filter_of(direction, options),
            filtered_text(direction, toots, posts, from),
        ) {
            assert(list[at] == status);
        } else {
            assert(list[at + 1] == status);
        }
    }
}

proof fn lemma_nothing_new(
    direction: Direction,
    toots: Seq<Toot>,
    posts: Seq<BskyPost>,
    options: SyncOptions,
    from: int,
)
    requires
        0 <= from,
        newest_is_mirrored(direction, toots, posts, options),
        forall|k: int|
            0 <= k < from ==> #[trigger] source_is_skipped(direction, toots, posts, options, k),
    ensures
        new_statuses_from(direction, toots, posts, options, from).len() == 0,
    decreases source_count(direction, toots, posts) - from,
{
    if from < source_count(direction, toots, posts) {
        if source_is_skipped(direction, toots, posts, options, from) {
            lemma_nothing_new(direction, toots, posts, options, from + 1);
        } else {
            assert(source_is_mirrored(direction, toots, posts, from));
        }
    }
}

/// The new statuses of a walk are the statuses for the posts that are due:
/// every new status is the status for such a post, and the status for
/// every such post is among the new statuses.
pub proof fn law_new_statuses_are_for_the_due_posts(
    direction: Direction,
    toots: Seq<Toot>,
    posts: Seq<BskyPost>,
    options: SyncOptions,
)
    ensures
        forall|i: int|
            0 <= i < new_statuses(direction, toots, posts, options).len()
                ==> is_status_for_due_post(
                #[trigger] new_statuses(direction, toots, posts, options)[i],
                direction,
                toots,
                posts,
                options,
            ),
        forall|j: int| #[trigger]
            is_due(direction, toots, posts, options, j) ==> new_statuses(
                direction,
                toots,
                posts,
                options,
            ).contains(status_for(direction, toots, posts, j)),
{
    let list = new_statuses_from(direction, toots, posts, options, 0);
    let turned = new_statuses(direction, toots, posts, options);
    assert forall|i: int| 0 <= i < turned.len() implies is_status_for_due_post(
        #[trigger] turned[i],
        direction,
        toots,
        posts,
        options,
    ) by {
        let j: int = lemma_new_status_has_source(
            direction,
            toots,
            posts,
            options,
            0,
            list.len() - 1 - i,
        );
        assert(is_due(direction, toots, posts, options, j) && turned[i] == status_for(
            direction,
            toots,
            posts,
            j,
        ));
    }
    assert forall|j: int| #[trigger]
        is_due(direction, toots, posts, options, j) implies turned.contains(
        status_for(direction, toots, posts, j),
    ) by {
        lemma_due_post_has_status(direction, toots, posts, options, 0, j);
        let at: int = choose|at: int|
            0 <= at < list.len() && list[at] == status_for(direction, toots, posts, j);
        assert(turned[list.len() - 1 - at] == status_for(direction, toots, posts, j));
    }
}

/// Replies are never mirrored: on both sides every new status comes from a
/// post that is no reply, whatever the options are.
pub proof fn law_replies_are_left_out(
    direction: Direction,
    toots: Seq<Toot>,
    posts: Seq<BskyPost>,
    options: SyncOptions,
)
    ensures
        forall|i: int|
            0 <= i < new_statuses(direction, toots, posts, options).len()
                ==> is_status_for_no_reply(
                #[trigger] new_statuses(direction, toots, posts, options)[i],
                direction,
                toots,
                posts,
            ),
{
    law_new_statuses_are_for_the_due_posts(direction, toots, posts, options);
    let found = new_statuses(direction, toots, posts, options);
    assert forall|i: int| 0 <= i < found.len() implies is_status_for_no_reply(
        #[trigger] found[i],
        direction,
        toots,
        posts,
    ) by {
        assert(is_status_for_due_post(found[i], direction, toots, posts, options));
        let j: int = choose|j: int| #[trigger]
            is_due(direction, toots, posts, options, j) && found[i] == status_for(
                direction,
                toots,
                posts,
                j,
            );
        assert(!source_is_reply(direction, toots, posts, j));
    }
}

/// With a hashtag filter that is not empty, only what holds the filter's
/// text is mirrored: every new status comes from a post whose text holds
/// it.
pub proof fn law_filter_keeps_the_rest_out(
    direction: Direction,
    toots: Seq<Toot>,
    posts: Seq<BskyPost>,
    options: SyncOptions,
)
    requires
        filter_of(direction, options) is Some,
        filter_of(direction, options)->0@.len() > 0,
    ensures
        forall|i: int|
            0 <= i < new_statuses(direction, toots, posts, options).len()
                ==> is_status_for_post_holding(
                #[trigger] new_statuses(direction, toots, posts, options)[i],
                direction,
                toots,
                posts,
                filter_of(direction, options)->0@,
            ),
{
    law_new_statuses_are_for_the_due_posts(direction, toots, posts, options);
    let found = new_statuses(direction, toots, posts, options);
    let tag = filter_of(direction, options)->0@;
    assert forall|i: int| 0 <= i < found.len() implies is_status_for_post_holding(
        #[trigger] found[i],
        direction,
        toots,
        posts,
        tag,
    ) by {
        assert(is_status_for_due_post(found[i], direction, toots, posts, options));
        let j: int = choose|j: int| #[trigger]
            is_due(direction, toots, posts, options, j) && found[i] == status_for(
                direction,
                toots,
                posts,
                j,
            );
        assert(holds_text(filtered_text(direction, toots, posts, j), tag));
    }
}

/// A new toot holds the text of the hashtag filter for Bluesky posts, if
/// that filter is not empty: the filter reads the very text that is
/// posted.
pub proof fn law_new_toots_hold_the_filter(
    toots: Seq<Toot>,
    posts: Seq<BskyPost>,
    options: SyncOptions,
)
    requires
        options.sync_hashtag_bluesky is Some,
        options.sync_hashtag_bluesky->0@.len() > 0,
    ensures
        forall|i: int|
            0 <= i < new_toots(toots, posts, options).len() ==> holds_text(
                (#[trigger] new_toots(toots, posts, options)[i]).text,
                options.sync_hashtag_bluesky->0@,
            ),
{
    law_filter_keeps_the_rest_out(Direction::ToMastodon, toots, posts, options);
    let found = new_toots(toots, posts, options);
    let tag = options.sync_hashtag_bluesky->0@;
    assert forall|i: int| 0 <= i < found.len() implies holds_text(
        (#[trigger] found[i]).text,
        tag,
    ) by {
        assert(is_status_for_post_holding(found[i], Direction::ToMastodon, toots, posts, tag));
        let j: int = choose|j: int|
            0 <= j < posts.len() && holds_text(
                #[trigger] filtered_text(Direction::ToMastodon, toots, posts, j),
                tag,
            ) && found[i] == status_for(Direction::ToMastodon, toots, posts, j);
        assert(found[i].text == post_text(posts[j]));
    }
}

/// Without a hashtag filter, or with an empty one, everything that counts
/// is mirrored up to the post at which the walk ends.
pub proof fn law_empty_filter_lets_all_pass(
    direction: Direction,
    toots: Seq<Toot>,
    posts: Seq<BskyPost>,
    options: SyncOptions,
)
    requires
        filter_of(direction, options) is Some ==> filter_of(direction, options)->0@.len() == 0,
    ensures
        forall|j: int|
            0 <= j < source_count(direction, toots, posts) && !#[trigger] source_is_skipped(
                direction,
                toots,
                posts,
                options,
                j,
            ) && (forall|k: int|
                0 <= k <= j ==> !#[trigger] ends_walk(direction, toots, posts, options, k))
                ==> new_statuses(direction, toots, posts, options).contains(
                status_for(direction, toots, posts, j),
            ),
{
    law_new_statuses_are_for_the_due_posts(direction, toots, posts, options);
    assert forall|j: int|
        0 <= j < source_count(direction, toots, posts) && !#[trigger] source_is_skipped(
            direction,
            toots,
            posts,
            options,
            j,
        ) && (forall|k: int|
            0 <= k <= j ==> !#[trigger] ends_walk(
                direction,
                toots,
                posts,
                options,
                k,
            )) implies new_statuses(direction, toots, posts, options).contains(
        status_for(direction, toots, posts, j),
    ) by {
        assert(is_due(direction, toots, posts, options, j));
    }
}

/// The indices of the posts of the walk that are due, from index `from`
/// on, newest first.
pub open spec fn due_posts_from(
    direction: Direction,
    toots: Seq<Toot>,
    posts: Seq<BskyPost>,
    options: SyncOptions,
    from: int,
) -> Seq<int>
    decreases source_count(direction, toots, posts) - from,
{
    if from < 0 || from >= source_count(direction, toots, posts) {
        Seq::empty()
    } else if source_is_skipped(direction, toots, posts, options, from) {
        due_posts_from(direction, toots, posts, options, from + 1)
    } else if source_is_mirrored(direction, toots, posts, from) {
        Seq::empty()
    } else if !passes_filter(
        filter_of(direction, options),
        filtered_text(direction, toots, posts, from),
    ) {
        due_posts_from(direction, toots, posts, options, from + 1)
    } else {
        seq![from] + due_posts_from(direction, toots, posts, options, from + 1)
    }
}

/// The indices of the posts of the walk that are due, oldest first.
pub open spec fn due_posts(
    direction: Direction,
    toots: Seq<Toot>,
    posts: Seq<BskyPost>,
    options: SyncOptions,
) -> Seq<int> {
    due_posts_from(direction, toots, posts, options, 0).reverse()
}

/// The new statuses for the posts of the walk at the indices `sources`.
pub open spec fn statuses_for(
    direction: Direction,
    toots: Seq<Toot>,
    posts: Seq<BskyPost>,
    sources: Seq<int>,
) -> Seq<StatusView> {
    sources.map_values(|j: int| status_for(direction, toots, posts, j))
}

/// The test that an index passes if the post of the walk there passes the
/// hashtag filter of `options`.
pub open spec fn holds_filter(
    direction: Direction,
    toots: Seq<Toot>,
    posts: Seq<BskyPost>,
    options: SyncOptions,
) -> spec_fn(int) -> bool {
    |j: int|
        passes_filter(filter_of(direction, options), filtered_text(direction, toots, posts, j))
}

/// Whether two sets of options agree in what decides which posts count.
pub open spec fn same_switches(a: SyncOptions, b: SyncOptions) -> bool {
    a.sync_reblogs == b.sync_reblogs && a.sync_reposts == b.sync_reposts
}

proof fn lemma_statuses_of_due(
    direction: Direction,
    toots: Seq<Toot>,
    posts: Seq<BskyPost>,
    options: SyncOptions,
    from: int,
)
    ensures
        new_statuses_from(direction, toots, posts, options, from) == statuses_for(
            direction,
            toots,
            posts,
            due_posts_from(direction, toots, posts, options, from),
        ),
    decreases source_count(direction, toots, posts) - from,
{
    if 0 <= from < source_count(direction, toots, posts) {
        lemma_statuses_of_due(direction, toots, posts, options, from + 1);
    }
    assert(new_statuses_from(direction, toots, posts, options, from) =~= statuses_for(
        direction,
        toots,
        posts,
        due_posts_from(direction, toots, posts, options, from),
    ));
}

proof fn lemma_due_filtered(
    direction: Direction,
    toots: Seq<Toot>,
    posts: Seq<BskyPost>,
    filtered: SyncOptions,
    open: SyncOptions,
    from: int,
)
    requires
        same_switches(filtered, open),
        filter_of(direction, open) is None,
    ensures
        due_posts_from(direction, toots, posts, filtered, from) == due_posts_from(
            direction,
            toots,
            posts,
            open,
            from,
        ).filter(holds_filter(direction, toots, posts, filtered)),
    decreases source_count(direction, toots, posts) - from,
{
    let test = holds_filter(direction, toots, posts, filtered);
    let all = due_posts_from(direction, toots, posts, open, from);
    if 0 <= from < source_count(direction, toots, posts) {
        lemma_due_filtered(direction, toots, posts, filtered, open, from + 1);
        let rest = due_posts_from(direction, toots, posts, open, from + 1);
        if all == seq![from] + rest {
            Seq::filter_distributes_over_add(seq![from], rest, test);
            assert(seq![from].filter(test) =~= if test(from) {
                seq![from]
            } else {
                Seq::<int>::empty()
            }) by {
                reveal_with_fuel(Seq::filter, 2);
            }
            assert(Seq::<int>::empty() + rest.filter(test) =~= rest.filter(test));
        } else if all.len() == 0 {
            assert(all.filter(test) =~= Seq::<int>::empty()) by {
                reveal(Seq::filter);
            }
        }
    } else {
        assert(all.filter(test) =~= Seq::<int>::empty()) by {
            reveal(Seq::filter);
        }
    }
}

proof fn lemma_filter_reverse(s: Seq<int>, test: spec_fn(int) -> bool)
    ensures
        s.reverse().filter(test) == s.filter(test).reverse(),
    decreases s.len(),
{
    if s.len() == 0 {
        assert(s.reverse() =~= s);
        assert(s.filter(test) =~= Seq::<int>::empty()) by {
            reveal(Seq::filter);
        }
        assert(s.filter(test).reverse() =~= s.filter(test));
    } else {
        let first = s[0];
        let rest = s.drop_first();
        lemma_filter_reverse(rest, test);
        assert(s =~= seq![first] + rest);
        assert(s.reverse() =~= rest.reverse().push(first));
        rest.reverse().lemma_filter_push(first, test);
        Seq::filter_distributes_over_add(seq![first], rest, test);
        assert(seq![first].filter(test) =~= if test(first) {
            seq![first]
        } else {
            Seq::<int>::empty()
        }) by {
            reveal_with_fuel(Seq::filter, 2);
        }
        if test(first) {
            assert((seq![first] + rest.filter(test)).reverse() =~= rest.filter(
                test,
            ).reverse().push(first));
        } else {
            assert(Seq::<int>::empty() + rest.filter(test) =~= rest.filter(test));
        }
    }
}

proof fn lemma_same_statuses(
    direction: Direction,
    toots: Seq<Toot>,
    posts: Seq<BskyPost>,
    a: SyncOptions,
    b: SyncOptions,
    from: int,
)
    requires
        same_switches(a, b),
        text_of(filter_of(direction, a)) == text_of(filter_of(direction, b)),
    ensures
        new_statuses_from(direction, toots, posts, a, from) == new_statuses_from(
            direction,
            toots,
            posts,
            b,
            from,
        ),
    decreases source_count(direction, toots, posts) - from,
{
    if 0 <= from < source_count(direction, toots, posts) {
        lemma_same_statuses(direction, toots, posts, a, b, from + 1);
    }
}

/// A hashtag filter only takes statuses out. The new statuses of a walk
/// are those for the posts that are due, in their order; and the posts that
/// are due with a filter are those that are due without it and pass it, in
/// the same order.
pub proof fn law_filter_only_takes_out(
    direction: Direction,
    toots: Seq<Toot>,
    posts: Seq<BskyPost>,
    filtered: SyncOptions,
    open: SyncOptions,
)
    requires
        same_switches(filtered, open),
        filter_of(direction, open) is None,
    ensures
        new_statuses(direction, toots, posts, filtered) == statuses_for(
            direction,
            toots,
            posts,
            due_posts(direction, toots, posts, filtered),
        ),
        new_statuses(direction, toots, posts, open) == statuses_for(
            direction,
            toots,
            posts,
            due_posts(direction, toots, posts, open),
        ),
        due_posts(direction, toots, posts, filtered) == due_posts(
            direction,
            toots,
            posts,
            open,
        ).filter(holds_filter(direction, toots, posts, filtered)),
{
    lemma_statuses_of_due(direction, toots, posts, filtered, 0);
    lemma_statuses_of_due(direction, toots, posts, open, 0);
    lemma_due_filtered(direction, toots, posts, filtered, open, 0);
    lemma_filter_reverse(
        due_posts_from(direction, toots, posts, open, 0),
        holds_filter(direction, toots, posts, filtered),
    );
    assert(new_statuses(direction, toots, posts, filtered) =~= statuses_for(
        direction,
        toots,
        posts,
        due_posts(direction, toots, posts, filtered),
    ));
    assert(new_statuses(direction, toots, posts, open) =~= statuses_for(
        direction,
        toots,
        posts,
        due_posts(direction, toots, posts, open),
    ));
}

/// The new statuses of a walk depend on the options only by the two
/// switches and by the text of the walk's own hashtag filter: the filter of
/// the other walk changes nothing.
pub proof fn law_other_filter_changes_nothing(
    direction: Direction,
    toots: Seq<Toot>,
    posts: Seq<BskyPost>,
    a: SyncOptions,
    b: SyncOptions,
)
    requires
        same_switches(a, b),
        text_of(filter_of(direction, a)) == text_of(filter_of(direction, b)),
    ensures
        new_statuses(direction, toots, posts, a) == new_statuses(direction, toots, posts, b),
{
    lemma_same_statuses(direction, toots, posts, a, b, 0);
}

/// A cycle over two snapshots without new posts finds nothing to do, each
/// time it is run: where the newest post that counts on each side is on
/// the other side already, both lists of new statuses are empty.
pub proof fn law_nothing_new_gives_nothing(
    toots: Seq<Toot>,
    posts: Seq<BskyPost>,
    options: SyncOptions,
)
    requires
        newest_is_mirrored(Direction::ToMastodon, toots, posts, options),
        newest_is_mirrored(Direction::ToBluesky, toots, posts, options),
    ensures
        new_toots(toots, posts, options) == Seq::<StatusView>::empty(),
        new_bsky_posts(toots, posts, options) == Seq::<StatusView>::empty(),
{
    lemma_nothing_new(Direction::ToMastodon, toots, posts, options, 0);
    lemma_nothing_new(Direction::ToBluesky, toots, posts, options, 0);
    assert(new_toots(toots, posts, options) =~= Seq::<StatusView>::empty());
    assert(new_bsky_posts(toots, posts, options) =~= Seq::<StatusView>::empty());
}

/// A toot that carries what a cycle made of a Bluesky post equals that
/// post: where the toot's text is the text that went to Mastodon for the
/// post, and both are replies or neither is, the matcher finds them equal.
pub proof fn law_mirrored_post_is_found(toot: Toot, post: BskyPost)
    requires
        toot.is_reply() == post.is_reply,
        toot_text(toot) == post_text(post),
    ensures
        posts_equal(toot, post),
{
}

/// A Bluesky post that carries what a cycle made of a toot equals that
/// toot: where the post's text is the text that went to Bluesky for the
/// toot, and both are replies or neither is, the matcher finds them equal.
pub proof fn law_mirrored_toot_is_found(toot: Toot, post: BskyPost)
    requires
        toot.is_reply() == post.is_reply,
        post_text(post) == bluesky_copy(toot),
    ensures
        posts_equal(toot, post),
{
}

/// A post that quotes another one shows the quoted post: unless the whole
/// is too long for Mastodon, its text ends in the quote mark, the handle of
/// the quoted author and the quoted text.
pub proof fn law_quote_is_shown(post: BskyPost)
    requires
        post.embed is Quote,
        grapheme_count(flattened(post)) <= MASTODON_LIMIT,
    ensures
        post_text(post) == flattened(post),
        holds_text(
            post_text(post),
            "\n\n💬 "@ + post.embed->Quote_0.author_handle@ + ": "@ + record_text(
                post.embed->Quote_0.record,
            ),
        ),
{
    let quote = post.embed->Quote_0;
    let shown = "\n\n💬 "@ + quote.author_handle@ + ": "@ + record_text(quote.record);
    let own = if post.is_repost {
        "♻️ "@ + post.author_handle@ + ": "@ + record_text(post.record)
    } else {
        record_text(post.record)
    };
    assert(flattened(post) =~= own + shown);
    assert((own + shown).subrange(own.len() as int, (own.len() + shown.len()) as int) =~= shown);
    assert(occurs_at(post_text(post), shown, own.len() as int));
}

} // verus!

//! The duplicate guard: keeps a status from being posted a second time.
//!
//! The texts that were posted are kept between runs, as a JSON array of
//! strings. They are parsed by the crate `serde_json`.

use crate::status::{status_views, NewStatus, StatusUpdates, StatusView};
use crate::text::concat;
use vstd::prelude::*;

verus! {

/// The number of texts that a loaded cache may hold. A stored cache with
/// more texts is dropped as a whole, so that a text can be posted again at
/// a later date.
pub const CACHE_LIMIT: usize = 150;

/// The texts of a list of strings, in order.
pub open spec fn texts_of(strings: Seq<String>) -> Seq<Seq<char>> {
    strings.map_values(|s: String| s@)
}

/// The strings of the JSON array `json`, in order, or nothing where `json`
/// is no array of strings: what `serde_json::from_str` gives for it.
pub uninterp spec fn json_string_list(json: Seq<char>) -> Option<Seq<Seq<char>>>;

/// The texts of an optional list of strings.
pub open spec fn parsed_texts(parsed: Option<Vec<String>>) -> Option<Seq<Seq<char>>> {
    match parsed {
        Some(strings) => Some(texts_of(strings@)),
        None => None,
    }
}

/// What is kept of a stored set of texts: all of it, or nothing where it
/// holds more than `CACHE_LIMIT` texts.
pub open spec fn bounded(texts: Set<Seq<char>>) -> Set<Seq<char>> {
    if texts.len() > CACHE_LIMIT {
        Set::empty()
    } else {
        texts
    }
}

/// The cache that is loaded from the content of the cache file; `None`
/// stands for a file that could not be read.
pub open spec fn loaded_cache(content: Option<Seq<char>>) -> Set<Seq<char>> {
    match content {
        Some(json) => match json_string_list(json) {
            Some(texts) => bounded(texts.to_set()),
            None => Set::empty(),
        },
        None => Set::empty(),
    }
}

/// The test that a status passes if its text is not in `cache`.
pub open spec fn not_in(cache: Set<Seq<char>>) -> spec_fn(StatusView) -> bool {
    |status: StatusView| !cache.contains(status.text)
}

/// The statuses whose text is not in `cache`, in their order.
pub open spec fn not_posted(statuses: Seq<StatusView>, cache: Set<Seq<char>>) -> Seq<StatusView> {
    statuses.filter(not_in(cache))
}

/// The test that a status passes if its text is in `cache`.
pub open spec fn is_in(cache: Set<Seq<char>>) -> spec_fn(StatusView) -> bool {
    |status: StatusView| cache.contains(status.text)
}

/// The warnings for the statuses whose text is in `cache`, in their order:
/// each is `prefix` followed by the text.
pub open spec fn warnings_for(
    statuses: Seq<StatusView>,
    cache: Set<Seq<char>>,
    prefix: Seq<char>,
) -> Seq<Seq<char>> {
    statuses.filter(is_in(cache)).map_values(|status: StatusView| prefix + status.text)
}

/// `serde_json::from_str` for a list of strings. Its result depends on the
/// text alone and is named `json_string_list`; nothing more is claimed of
/// it.
#[verifier::external_body]
fn parse_string_list(json: &str) -> (parsed: Option<Vec<String>>)
    ensures
        parsed_texts(parsed) == json_string_list(json@),
{
    serde_json::from_str::<Vec<String>>(json).ok()
}

/// The texts that were posted before. No text is held twice.
#[derive(Debug)]
pub struct PostCache {
    entries: Vec<String>,
}

impl View for PostCache {
    type V = Set<Seq<char>>;

    closed spec fn view(&self) -> Set<Seq<char>> {
        texts_of(self.entries@).to_set()
    }
}

impl PostCache {
    #[verifier::type_invariant]
    spec fn holds_no_text_twice(self) -> bool {
        texts_of(self.entries@).no_duplicates()
    }

    /// A cache without texts.
    pub fn new() -> (cache: PostCache)
        ensures
            cache@ == Set::<Seq<char>>::empty(),
    {
        let cache = PostCache { entries: Vec::new() };
        assert(cache@ =~= Set::<Seq<char>>::empty());
        cache
    }

    /// The number of texts in the cache.
    pub fn len(&self) -> (n: usize)
        ensures
            n == self@.len(),
            self@.finite(),
    {
        proof {
            use_type_invariant(self);
            texts_of(self.entries@).unique_seq_to_set();
            vstd::seq_lib::seq_to_set_is_finite(texts_of(self.entries@));
        }
        self.entries.len()
    }

    /// Whether `text` is in the cache.
    pub fn contains(&self, text: &String) -> (found: bool)
        ensures
            found == self@.contains(text@),
    {
        let mut i: usize = 0;
        while i < self.entries.len()
            invariant
                i <= self.entries@.len(),
                forall|k: int| 0 <= k < i ==> texts_of(self.entries@)[k] != text@,
            decreases self.entries@.len() - i,
        {
            if self.entries[i] == *text {
                assert(texts_of(self.entries@)[i as int] == text@);
                return true;
            }
            i += 1;
        }
        false
    }

    /// The cache with `text` in it as well.
    fn with_text(self, text: String) -> (cache: PostCache)
        ensures
            cache@ == self@.insert(text@),
    {
        if self.contains(&text) {
            assert(self@.insert(text@) =~= self@);
            return self;
        }
        proof {
            use_type_invariant(&self);
            texts_of(self.entries@).lemma_push_to_set_commute(text@);
            assert(texts_of(self.entries@.push(text)) =~= texts_of(self.entries@).push(text@));
        }
        let mut entries = self.entries;
        entries.push(text);
        PostCache { entries }
    }

    /// The texts in the cache, each once, for storing them.
    pub fn texts(&self) -> (texts: &Vec<String>)
        ensures
            texts_of(texts@).to_set() == self@,
            texts_of(texts@).no_duplicates(),
    {
        proof {
            use_type_invariant(self);
        }
        &self.entries
    }

    /// The cache for a stored list of texts: the set of the texts, or an
    /// empty cache where they are more than `CACHE_LIMIT`.
    pub fn from_texts(texts: Vec<String>) -> (cache: PostCache)
        ensures
            cache@ == bounded(texts_of(texts@).to_set()),
            cache@.len() <= CACHE_LIMIT,
    {
        let mut cache = PostCache::new();
        let ghost all = texts_of(texts@);
        let mut i: usize = 0;
        assert(all.subrange(0, 0).to_set() =~= Set::<Seq<char>>::empty());
        while i < texts.len()
            invariant
                i <= texts@.len(),
                all == texts_of(texts@),
                cache@ == all.subrange(0, i as int).to_set(),
            decreases texts@.len() - i,
        {
            proof {
                all.subrange(0, i as int).lemma_push_to_set_commute(all[i as int]);
                assert(all.subrange(0, i as int).push(all[i as int]) =~= all.subrange(
                    0,
                    i as int + 1,
                ));
            }
            cache = cache.with_text(texts[i].clone());
            i += 1;
        }
        assert(all.subrange(0, i as int) =~= all);
        if cache.len() > CACHE_LIMIT {
            PostCache::new()
        } else {
            cache
        }
    }
}

/// The cache for what was parsed from the cache file: empty where nothing
/// could be parsed.
pub fn cache_from_parsed(parsed: Option<Vec<String>>) -> (cache: PostCache)
    ensures
        cache@ == match parsed_texts(parsed) {
            Some(texts) => bounded(texts.to_set()),
            None => Set::empty(),
        },
        cache@.len() <= CACHE_LIMIT,
{
    match parsed {
        Some(texts) => PostCache::from_texts(texts),
        None => PostCache::new(),
    }
}

/// Loads the cache from the content of the cache file. `None` stands for a
/// file that could not be read. A file that cannot be read or parsed gives
/// an empty cache, and so does one that holds more than `CACHE_LIMIT`
/// texts.
pub fn read_post_cache(content: Option<&str>) -> (cache: PostCache)
    ensures
        cache@ == loaded_cache(
            match content {
                Some(json) => Some(json@),
                None => None,
            },
        ),
        cache@.len() <= CACHE_LIMIT,
{
    match content {
        Some(json) => cache_from_parsed(parse_string_list(json)),
        None => PostCache::new(),
    }
}

/// The statuses of `list` whose text is not in the cache.
fn keep_new(list: Vec<NewStatus>, post_cache: &PostCache) -> (kept: Vec<NewStatus>)
    ensures
        status_views(kept@) == not_posted(status_views(list@), post_cache@),
{
    let mut kept: Vec<NewStatus> = Vec::new();
    let ghost all = status_views(list@);
    let ghost n = list@.len();
    let mut rest = list;
    let mut stack: Vec<NewStatus> = Vec::new();
    // Turn the list round, so that its first status is taken first.
    while rest.len() > 0
        invariant
            rest@.len() + stack@.len() == n,
            status_views(rest@) == all.subrange(0, rest@.len() as int),
            forall|k: int|
                0 <= k < stack@.len() ==> (#[trigger] stack@[k])@ == all[n - 1 - k],
            n == all.len(),
        decreases rest@.len(),
    {
        let ghost before = status_views(rest@);
        let ghost turned = stack@;
        let last = rest.pop().unwrap();
        assert(status_views(rest@) =~= before.drop_last());
        assert(last@ == before[before.len() - 1]);
        stack.push(last);
        assert forall|k: int| 0 <= k < stack@.len() implies (#[trigger] stack@[k])@ == all[n - 1
            - k] by {
            if k < turned.len() {
                assert(stack@[k] == turned[k]);
            }
        }
    }
    proof {
        assert(all.subrange(0, 0).filter(not_in(post_cache@)) =~= Seq::<StatusView>::empty()) by {
            reveal(Seq::filter);
        }
        assert(status_views(kept@) =~= Seq::<StatusView>::empty());
    }
    while stack.len() > 0
        invariant
            stack@.len() <= n,
            n == all.len(),
            forall|k: int|
                0 <= k < stack@.len() ==> (#[trigger] stack@[k])@ == all[n - 1 - k],
            status_views(kept@) == not_posted(
                all.subrange(0, n - stack@.len()),
                post_cache@,
            ),
        decreases stack@.len(),
    {
        let ghost done = all.subrange(0, n - stack@.len());
        let ghost before = status_views(kept@);
        let ghost waiting = stack@;
        let status = stack.pop().unwrap();
        proof {
            assert(status == waiting[waiting.len() - 1]);
            assert forall|k: int| 0 <= k < stack@.len() implies (#[trigger] stack@[k])@ == all[n
                - 1 - k] by {
                assert(stack@[k] == waiting[k]);
            }
            done.lemma_filter_push(status@, not_in(post_cache@));
            assert(done.push(status@) =~= all.subrange(0, n - stack@.len()));
        }
        if !post_cache.contains(&status.text) {
            kept.push(status);
            assert(status_views(kept@) =~= before.push(status@));
        }
    }
    assert(all.subrange(0, n as int) =~= all);
    kept
}

/// Appends to `warnings` a warning for each status of `list` whose text is
/// in the cache.
fn warn_of_posted(
    warnings: &mut Vec<String>,
    list: &Vec<NewStatus>,
    post_cache: &PostCache,
    prefix: &str,
)
    ensures
        texts_of(final(warnings)@) == texts_of(old(warnings)@) + warnings_for(
            status_views(list@),
            post_cache@,
            prefix@,
        ),
{
    let ghost all = status_views(list@);
    let ghost start = texts_of(warnings@);
    let mut i: usize = 0;
    proof {
        assert(all.subrange(0, 0).filter(is_in(post_cache@)) =~= Seq::<StatusView>::empty()) by {
            reveal(Seq::filter);
        }
        assert(texts_of(warnings@) =~= start + warnings_for(
            all.subrange(0, 0),
            post_cache@,
            prefix@,
        ));
    }
    while i < list.len()
        invariant
            i <= list@.len(),
            all == status_views(list@),
            texts_of(warnings@) == start + warnings_for(
                all.subrange(0, i as int),
                post_cache@,
                prefix@,
            ),
        decreases list@.len() - i,
    {
        let status = &list[i];
        let ghost done = all.subrange(0, i as int);
        let ghost before = texts_of(warnings@);
        proof {
            done.lemma_filter_push(status@, is_in(post_cache@));
            assert(done.push(status@) =~= all.subrange(0, i as int + 1));
        }
        if post_cache.contains(&status.text) {
            warnings.push(concat(prefix, status.text.as_str()));
            assert(texts_of(warnings@) =~= before.push(prefix@ + status@.text));
            assert(texts_of(warnings@) =~= start + warnings_for(
                all.subrange(0, i as int + 1),
                post_cache@,
                prefix@,
            ));
        }
        i += 1;
    }
    assert(all.subrange(0, i as int) =~= all);
}

/// The warnings for the statuses that `filter_posted_before` takes out:
/// first those for Bluesky, then those for Mastodon, each naming the side
/// and the text.
pub fn double_post_warnings(posts: &StatusUpdates, post_cache: &PostCache) -> (warnings: Vec<
    String,
>)
    ensures
        texts_of(warnings@) == warnings_for(
            status_views(posts.bsky_posts@),
            post_cache@,
            "Error: preventing double posting to Bluesky: "@,
        ) + warnings_for(
            status_views(posts.toots@),
            post_cache@,
            "Error: preventing double posting to Mastodon: "@,
        ),
{
    let mut warnings: Vec<String> = Vec::new();
    assert(texts_of(warnings@) =~= Seq::<Seq<char>>::empty());
    warn_of_posted(
        &mut warnings,
        &posts.bsky_posts,
        post_cache,
        "Error: preventing double posting to Bluesky: ",
    );
    warn_of_posted(
        &mut warnings,
        &posts.toots,
        post_cache,
        "Error: preventing double posting to Mastodon: ",
    );
    warnings
}

/// Takes out the statuses that were posted before, so that a cycle does
/// not post one twice or mirror a mirrored post back. Each list is
/// filtered by itself.
pub fn filter_posted_before(posts: StatusUpdates, post_cache: &PostCache) -> (filtered:
    StatusUpdates)
    ensures
        status_views(filtered.bsky_posts@) == not_posted(
            status_views(posts.bsky_posts@),
            post_cache@,
        ),
        status_views(filtered.toots@) == not_posted(status_views(posts.toots@), post_cache@),
        forall|i: int|
            0 <= i < filtered.bsky_posts@.len() ==> !post_cache@.contains(
                (#[trigger] filtered.bsky_posts@[i]).text@,
            ),
        forall|i: int|
            0 <= i < filtered.toots@.len() ==> !post_cache@.contains(
                (#[trigger] filtered.toots@[i]).text@,
            ),
{
    let StatusUpdates { bsky_posts, toots } = posts;
    let filtered = StatusUpdates {
        bsky_posts: keep_new(bsky_posts, post_cache),
        toots: keep_new(toots, post_cache),
    };
    proof {
        lemma_not_posted(status_views(posts.bsky_posts@), post_cache@);
        lemma_not_posted(status_views(posts.toots@), post_cache@);
        assert forall|i: int| 0 <= i < filtered.bsky_posts@.len() implies !post_cache@.contains(
            (#[trigger] filtered.bsky_posts@[i]).text@,
        ) by {
            assert(status_views(filtered.bsky_posts@)[i].text == filtered.bsky_posts@[i].text@);
        }
        assert forall|i: int| 0 <= i < filtered.toots@.len() implies !post_cache@.contains(
            (#[trigger] filtered.toots@[i]).text@,
        ) by {
            assert(status_views(filtered.toots@)[i].text == filtered.toots@[i].text@);
        }
    }
    filtered
}

/// No status that is kept has its text in the cache.
pub proof fn lemma_not_posted(statuses: Seq<StatusView>, cache: Set<Seq<char>>)
    ensures
        forall|i: int|
            0 <= i < not_posted(statuses, cache).len() ==> !cache.contains(
                (#[trigger] not_posted(statuses, cache)[i]).text,
            ),
{
    assert forall|i: int| 0 <= i < not_posted(statuses, cache).len() implies !cache.contains(
        (#[trigger] not_posted(statuses, cache)[i]).text,
    ) by {
        statuses.lemma_filter_pred(not_in(cache), i);
    }
}

} // verus!

use mastodon_bluesky_sync::{
    determine_posts, determine_posts_checked, toot_and_post_are_equal, Boost, BskyEmbed, BskyImage, BskyPost, BskyRecord,
    NewStatus, StatusUpdates, SyncOptions, Toot, TootAttachment,
};

fn post(text: &str) -> BskyPost {
    BskyPost {
        uri: "at://did:plc:abc/app.bsky.feed.post/3kkey".to_string(),
        author_handle: "me.example".to_string(),
        record: BskyRecord { text: text.to_string(), facets: Vec::new() },
        embed: BskyEmbed::Nothing,
        is_reply: false,
        is_repost: false,
    }
}

fn toot(content: &str) -> Toot {
    Toot {
        content: format!("<p>{content}</p>"),
        url: Some("https://mastodon.example/@me/1".to_string()),
        in_reply_to_id: None,
        reblog: None,
        media_attachments: Vec::new(),
    }
}

fn texts(statuses: &[NewStatus]) -> Vec<String> {
    statuses.iter().map(|s| s.text.clone()).collect()
}

fn status(text: &str) -> NewStatus {
    NewStatus {
        text: text.to_string(),
        attachments: Vec::new(),
        replies: Vec::new(),
        in_reply_to_id: None,
    }
}

#[test]
fn reverse_order_turns_both_lists() {
    let mut updates = StatusUpdates {
        bsky_posts: vec![status("1"), status("2"), status("3")],
        toots: vec![status("a"), status("b")],
    };
    updates.reverse_order();
    assert_eq!(texts(&updates.bsky_posts), ["3", "2", "1"]);
    assert_eq!(texts(&updates.toots), ["b", "a"]);
    updates.reverse_order();
    assert_eq!(texts(&updates.bsky_posts), ["1", "2", "3"]);
    assert_eq!(texts(&updates.toots), ["a", "b"]);
}

#[test]
fn reverse_order_of_nothing_is_nothing() {
    let mut updates = StatusUpdates { bsky_posts: Vec::new(), toots: Vec::new() };
    updates.reverse_order();
    assert!(updates.bsky_posts.is_empty());
    assert!(updates.toots.is_empty());
}

#[test]
fn empty_snapshots_give_nothing() {
    let updates = determine_posts(&[], &[], &SyncOptions::default());
    assert!(updates.toots.is_empty());
    assert!(updates.bsky_posts.is_empty());
}

#[test]
fn new_posts_go_to_the_other_side_oldest_first() {
    let toots = vec![toot("toot three"), toot("toot two"), toot("toot one")];
    let posts = vec![post("post two"), post("post one")];
    let updates = determine_posts(&toots, &posts, &SyncOptions::default());
    assert_eq!(texts(&updates.toots), ["post one", "post two"]);
    assert_eq!(texts(&updates.bsky_posts), ["toot one", "toot two", "toot three"]);
}

#[test]
fn new_statuses_have_no_replies_and_no_parent() {
    let updates = determine_posts(&[toot("t")], &[post("p")], &SyncOptions::default());
    for s in updates.toots.iter().chain(updates.bsky_posts.iter()) {
        assert!(s.replies.is_empty());
        assert_eq!(s.in_reply_to_id, None);
    }
}

#[test]
fn synced_snapshots_give_nothing_each_time() {
    let toots = vec![toot("Newest on both"), toot("Older toot")];
    let posts = vec![post("Newest on both"), post("Older post")];
    for _ in 0..2 {
        let updates = determine_posts(&toots, &posts, &SyncOptions::default());
        assert!(updates.toots.is_empty());
        assert!(updates.bsky_posts.is_empty());
    }
}

#[test]
fn first_match_ends_the_walk() {
    // "old" is on neither side's counterpart, but lies behind the match.
    let toots = vec![toot("new toot"), toot("shared"), toot("old toot")];
    let posts = vec![post("new post"), post("shared"), post("old post")];
    let updates = determine_posts(&toots, &posts, &SyncOptions::default());
    assert_eq!(texts(&updates.toots), ["new post"]);
    assert_eq!(texts(&updates.bsky_posts), ["new toot"]);
}

#[test]
fn replies_are_never_mirrored() {
    let mut reply_toot = toot("a reply toot");
    reply_toot.in_reply_to_id = Some("42".to_string());
    let mut reply_post = post("a reply post");
    reply_post.is_reply = true;
    let options = SyncOptions {
        sync_reblogs: true,
        sync_reposts: true,
        sync_hashtag_bluesky: None,
        sync_hashtag_mastodon: None,
    };
    let updates = determine_posts(
        &[reply_toot.clone(), toot("plain toot")],
        &[reply_post.clone(), post("plain post")],
        &options,
    );
    assert_eq!(texts(&updates.toots), ["plain post"]);
    assert_eq!(texts(&updates.bsky_posts), ["plain toot"]);
    let updates = determine_posts(&[reply_toot], &[reply_post], &SyncOptions::default());
    assert!(updates.toots.is_empty());
    assert!(updates.bsky_posts.is_empty());
}

#[test]
fn a_reply_does_not_end_the_walk() {
    // The reply toot has the text of the post, but replies are not compared.
    let mut reply_toot = toot("same words");
    reply_toot.in_reply_to_id = Some("42".to_string());
    let updates = determine_posts(
        &[reply_toot],
        &[post("newer"), post("same words"), post("older")],
        &SyncOptions::default(),
    );
    assert_eq!(texts(&updates.toots), ["older", "same words", "newer"]);
}

#[test]
fn reposts_are_mirrored_only_when_asked() {
    let mut repost = post("reposted words");
    repost.is_repost = true;
    repost.author_handle = "other.example".to_string();
    let posts = vec![repost, post("own words")];
    let updates = determine_posts(&[], &posts, &SyncOptions::default());
    assert_eq!(texts(&updates.toots), ["own words"]);
    let options = SyncOptions { sync_reposts: true, ..SyncOptions::default() };
    let updates = determine_posts(&[], &posts, &options);
    assert_eq!(texts(&updates.toots), ["own words", "♻️ other.example: reposted words"]);
}

#[test]
fn boosts_are_mirrored_only_when_asked() {
    let mut boost = toot("");
    boost.reblog = Some(Boost {
        username: "alice".to_string(),
        content: "<p>boosted words</p>".to_string(),
        url: Some("https://other.example/@alice/9".to_string()),
        media_attachments: Vec::new(),
    });
    let toots = vec![boost, toot("own words")];
    let updates = determine_posts(&toots, &[], &SyncOptions::default());
    assert_eq!(texts(&updates.bsky_posts), ["own words"]);
    let options = SyncOptions { sync_reblogs: true, ..SyncOptions::default() };
    let updates = determine_posts(&toots, &[], &options);
    assert_eq!(texts(&updates.bsky_posts), ["own words", "♻️ alice: boosted words"]);
}

#[test]
fn a_shortened_boost_links_to_the_boosted_toot() {
    let mut boost = toot("");
    boost.reblog = Some(Boost {
        username: "alice".to_string(),
        content: format!("<p>{}</p>", "long ".repeat(80)),
        url: Some("https://other.example/@alice/9".to_string()),
        media_attachments: Vec::new(),
    });
    let options = SyncOptions { sync_reblogs: true, ..SyncOptions::default() };
    let updates = determine_posts(&[boost], &[], &options);
    assert_eq!(updates.bsky_posts.len(), 1);
    assert!(updates.bsky_posts[0].text.starts_with("♻️ alice: long long"));
    assert!(updates.bsky_posts[0].text.ends_with(" … https://other.example/@alice/9"));
}

#[test]
fn toots_to_one_user_are_left_out() {
    let toots = vec![toot("@bob only for you"), toot("for all @bob")];
    let updates = determine_posts(&toots, &[], &SyncOptions::default());
    assert_eq!(texts(&updates.bsky_posts), ["for all \\@bob"]);
}

#[test]
fn hashtag_filter_for_bluesky_posts() {
    let posts = vec![post("no tag here"), post("with #sync tag"), post("#Sync in capitals")];
    let options =
        SyncOptions { sync_hashtag_bluesky: Some("#sync".to_string()), ..SyncOptions::default() };
    let updates = determine_posts(&[toot("untagged toot")], &posts, &options);
    assert_eq!(texts(&updates.toots), ["with #sync tag"]);
    // The filter for Bluesky posts does not touch the toots.
    assert_eq!(texts(&updates.bsky_posts), ["untagged toot"]);
}

#[test]
fn hashtag_filter_for_toots() {
    let toots = vec![toot("tagged #bsky toot"), toot("untagged toot")];
    let options =
        SyncOptions { sync_hashtag_mastodon: Some("#bsky".to_string()), ..SyncOptions::default() };
    let updates = determine_posts(&toots, &[post("untagged post")], &options);
    assert_eq!(texts(&updates.bsky_posts), ["tagged #bsky toot"]);
    assert_eq!(texts(&updates.toots), ["untagged post"]);
}

#[test]
fn hashtag_filter_reads_the_full_text_of_a_toot() {
    // The tag stands at the end and is cut off from what goes to Bluesky.
    let content = "word ".repeat(70) + "#bsky";
    let options =
        SyncOptions { sync_hashtag_mastodon: Some("#bsky".to_string()), ..SyncOptions::default() };
    let updates = determine_posts(&[toot(&content)], &[], &options);
    assert_eq!(updates.bsky_posts.len(), 1);
    assert!(!updates.bsky_posts[0].text.contains("#bsky"));
    assert!(updates.bsky_posts[0].text.ends_with(" … https://mastodon.example/@me/1"));
}

#[test]
fn empty_hashtag_filter_lets_all_pass() {
    let toots = vec![toot("toot b"), toot("toot a")];
    let posts = vec![post("post b"), post("post a")];
    let options = SyncOptions {
        sync_hashtag_bluesky: Some(String::new()),
        sync_hashtag_mastodon: Some(String::new()),
        ..SyncOptions::default()
    };
    let updates = determine_posts(&toots, &posts, &options);
    assert_eq!(texts(&updates.toots), ["post a", "post b"]);
    assert_eq!(texts(&updates.bsky_posts), ["toot a", "toot b"]);
}

#[test]
fn all_filtered_is_an_empty_result() {
    let options = SyncOptions {
        sync_hashtag_bluesky: Some("#never".to_string()),
        sync_hashtag_mastodon: Some("#never".to_string()),
        ..SyncOptions::default()
    };
    let updates = determine_posts(&[toot("a")], &[post("b")], &options);
    assert!(updates.toots.is_empty());
    assert!(updates.bsky_posts.is_empty());
}

#[test]
fn a_filtered_post_does_not_end_the_walk() {
    let posts = vec![post("untagged"), post("older #sync")];
    let options =
        SyncOptions { sync_hashtag_bluesky: Some("#sync".to_string()), ..SyncOptions::default() };
    let updates = determine_posts(&[], &posts, &options);
    assert_eq!(texts(&updates.toots), ["older #sync"]);
}

#[test]
fn new_statuses_carry_their_media() {
    let mut with_images = post("pictures");
    with_images.embed = BskyEmbed::Images(vec![BskyImage {
        fullsize: "https://cdn.example/full.jpg".to_string(),
        alt: "alt text".to_string(),
    }]);
    let mut with_file = toot("file");
    with_file.media_attachments = vec![TootAttachment {
        url: "https://files.example/f.png".to_string(),
        description: None,
    }];
    let updates = determine_posts(&[with_file], &[with_images], &SyncOptions::default());
    assert_eq!(updates.toots[0].attachments.len(), 1);
    assert_eq!(updates.toots[0].attachments[0].attachment_url, "https://cdn.example/full.jpg");
    assert_eq!(updates.toots[0].attachments[0].alt_text, Some("alt text".to_string()));
    assert_eq!(updates.bsky_posts[0].attachments.len(), 1);
    assert_eq!(updates.bsky_posts[0].attachments[0].attachment_url, "https://files.example/f.png");
    assert_eq!(updates.bsky_posts[0].attachments[0].alt_text, None);
}

#[test]
fn equal_when_texts_agree_in_the_form_for_comparison() {
    assert!(toot_and_post_are_equal(&toot("Hello World"), &post("hello world")));
    assert!(toot_and_post_are_equal(
        &toot("See https://example.com/x"),
        &post("See example.com/x")
    ));
    assert!(toot_and_post_are_equal(&toot("Thanks @alice"), &post("Thanks @alice")));
    assert!(!toot_and_post_are_equal(&toot("Hello World"), &post("Hello Word")));
}

#[test]
fn not_equal_when_only_one_is_a_reply() {
    let mut reply_toot = toot("same");
    reply_toot.in_reply_to_id = Some("1".to_string());
    let mut reply_post = post("same");
    reply_post.is_reply = true;
    assert!(!toot_and_post_are_equal(&reply_toot, &post("same")));
    assert!(!toot_and_post_are_equal(&toot("same"), &reply_post));
    assert!(toot_and_post_are_equal(&reply_toot, &reply_post));
    assert!(toot_and_post_are_equal(&toot("same"), &post("same")));
}

#[test]
fn equal_to_the_shortened_copy() {
    // The post holds what the toot was shortened to when it was mirrored.
    let long = "word ".repeat(80);
    let source = toot(&long);
    let updates = determine_posts(&[toot(&long)], &[], &SyncOptions::default());
    let mirrored = post(&updates.bsky_posts[0].text);
    assert!(updates.bsky_posts[0].text.ends_with(" … https://mastodon.example/@me/1"));
    assert!(toot_and_post_are_equal(&source, &mirrored));
}

#[test]
fn mirrored_toot_is_found_on_bluesky() {
    let source = toot("Fresh from Mastodon &amp; more");
    let first = determine_posts(&[toot("Fresh from Mastodon &amp; more")], &[], &SyncOptions::default());
    assert_eq!(texts(&first.bsky_posts), ["Fresh from Mastodon & more"]);
    let mirrored = post(&first.bsky_posts[0].text);
    assert!(toot_and_post_are_equal(&source, &mirrored));
    let second = determine_posts(&[source], &[mirrored], &SyncOptions::default());
    assert!(second.bsky_posts.is_empty());
    assert!(second.toots.is_empty());
}

#[test]
fn mirrored_post_is_found_on_mastodon() {
    let source = post("Fresh from Bluesky");
    let first = determine_posts(&[], &[post("Fresh from Bluesky")], &SyncOptions::default());
    assert_eq!(texts(&first.toots), ["Fresh from Bluesky"]);
    let mirrored = toot(&first.toots[0].text);
    assert!(toot_and_post_are_equal(&mirrored, &source));
    let second = determine_posts(&[mirrored], &[source], &SyncOptions::default());
    assert!(second.bsky_posts.is_empty());
    assert!(second.toots.is_empty());
}

#[test]
fn a_long_post_is_shortened_for_mastodon() {
    let long = post(&"a ".repeat(251));
    let updates = determine_posts(&[], &[long], &SyncOptions::default());
    let expected =
        format!("{}a… https://bsky.app/profile/me.example/post/3kkey", "a ".repeat(225));
    assert_eq!(texts(&updates.toots), [expected]);
}

#[test]
fn equal_to_the_copy_that_was_cut_with_its_scheme() {
    // The copy was cut from the text with the scheme in it: 144 words stay.
    let source = Toot {
        content: "<p>https://e.co ".to_string() + &"a ".repeat(199) + "a</p>",
        url: None,
        in_reply_to_id: None,
        reblog: None,
        media_attachments: Vec::new(),
    };
    let copy = "https://e.co".to_string() + &" a".repeat(144);
    let updates = determine_posts(&[source.clone()], &[], &SyncOptions::default());
    assert_eq!(texts(&updates.bsky_posts), [copy.clone()]);
    assert!(toot_and_post_are_equal(&source, &post(&copy)));
    let again = determine_posts(&[source], &[post(&copy)], &SyncOptions::default());
    assert!(again.bsky_posts.is_empty());
    assert!(again.toots.is_empty());
}

#[test]
fn a_reply_on_bluesky_is_never_read() {
    // Its record is malformed and its address has no key; neither is looked at.
    let mut reply = post(&"long ".repeat(200));
    reply.is_reply = true;
    reply.uri = String::new();
    reply.record.facets = vec![mastodon_bluesky_sync::Facet {
        byte_start: 5000,
        byte_end: 6000,
        link: Some("u".to_string()),
    }];
    let posts = vec![reply, post("plain")];
    let updates = determine_posts(&[toot("t")], &posts, &SyncOptions::default());
    assert_eq!(texts(&updates.toots), ["plain"]);
    assert_eq!(texts(&updates.bsky_posts), ["t"]);
    assert!(!toot_and_post_are_equal(&toot("t"), &posts[0]));
}

#[test]
fn checked_planning_tells_when_a_post_cannot_be_read() {
    let mut unreadable = post(&"long ".repeat(200));
    unreadable.uri = "at://did:plc:abc/app.bsky.feed.post/".to_string();
    assert!(determine_posts_checked(&[], &[unreadable.clone()], &SyncOptions::default()).is_none());
    unreadable.is_reply = true;
    let updates =
        determine_posts_checked(&[toot("t")], &[unreadable, post("p")], &SyncOptions::default())
            .unwrap();
    assert_eq!(texts(&updates.toots), ["p"]);
    assert_eq!(texts(&updates.bsky_posts), ["t"]);
}

#[test]
fn a_filter_for_toots_only_takes_posts_out() {
    let toots = vec![
        toot("newest #keep"),
        toot("plain one"),
        toot(&("word ".repeat(70) + "#keep")),
        toot("plain two"),
        toot("oldest #keep"),
    ];
    let posts = vec![post("post b"), post("post a")];
    let open = SyncOptions::default();
    let filtered = SyncOptions { sync_hashtag_mastodon: Some("#keep".to_string()), ..open.clone() };
    let all = determine_posts(&toots, &posts, &open);
    let some = determine_posts(&toots, &posts, &filtered);
    // Oldest first, the sources of `all` are the toots at 4, 3, 2, 1, 0.
    let kept: Vec<String> = [4, 2, 0].iter().map(|&i| all.bsky_posts[4 - i].text.clone()).collect();
    assert_eq!(all.bsky_posts.len(), 5);
    assert_eq!(texts(&some.bsky_posts), kept);
    assert_eq!(texts(&some.toots), texts(&all.toots));
    assert_eq!(texts(&some.toots), ["post a", "post b"]);
}

use mastodon_bluesky_sync::normalize::{
    bsky_post_flatten, convert_line_breaks, drop_schemes_and_escapes, escape_mentions,
};
use mastodon_bluesky_sync::{
    bsky_get_attachments, bsky_post_unshorten_decode, bsky_post_unshorten_decode_checked,
    bsky_record_get_text, determine_posts, post_is_readable,
    mastodon_toot_get_text, toot_get_attachments, truncate_option_string, unify_post_content,
    Boost, BskyEmbed, BskyImage, BskyPost, BskyQuote, BskyRecord, Facet, SyncOptions, Toot,
    TootAttachment,
};

const POST_URI: &str = "at://did:plc:i7uartkbj7ktzo4tj4rq6oyi/app.bsky.feed.post/3lb3f2ko4rc23";

fn plain_record(text: &str) -> BskyRecord {
    BskyRecord { text: text.to_string(), facets: Vec::new() }
}

fn plain_post(text: &str) -> BskyPost {
    BskyPost {
        uri: POST_URI.to_string(),
        author_handle: "klau.si".to_string(),
        record: plain_record(text),
        embed: BskyEmbed::Nothing,
        is_reply: false,
        is_repost: false,
    }
}

fn plain_toot(content: &str) -> Toot {
    Toot {
        content: content.to_string(),
        url: Some("https://mastodon.social/@klausi/1".to_string()),
        in_reply_to_id: None,
        reblog: None,
        media_attachments: Vec::new(),
    }
}

// The record of the quoted post: its text shows a cut link, and a link
// facet over the cut link holds the full address.
fn quoted_release_record() -> BskyRecord {
    let text = "Initial release of #Mastodon #Bluesky Sync 🚀  !\n\nSynchronization of posts \
                works, but I'm still testing things.\n\ngithub.com/klausi/mast..."
        .to_string();
    let tag_start = text.find("#Mastodon").unwrap();
    let link_start = text.find("github.com").unwrap();
    let facets = vec![
        Facet { byte_start: tag_start, byte_end: tag_start + "#Mastodon".len(), link: None },
        Facet {
            byte_start: link_start,
            byte_end: text.len(),
            link: Some(
                "https://github.com/klausi/mastodon-bluesky-sync/releases/tag/v0.2.0".to_string(),
            ),
        },
    ];
    BskyRecord { text, facets }
}

fn quote_post() -> BskyPost {
    let mut post = plain_post("Working on this and testing quote posts");
    post.embed = BskyEmbed::Quote(BskyQuote {
        author_handle: "klau.si".to_string(),
        record: quoted_release_record(),
    });
    post
}

// Test that embedded quote posts are included correctly.
#[test]
fn bsky_quote_post() {
    let post = quote_post();
    assert!(post.is_well_formed());
    let posts = determine_posts(&Vec::new(), &vec![post], &SyncOptions::default());
    assert_eq!(
        posts.toots[0].text,
        "Working on this and testing quote posts

💬 klau.si: Initial release of #Mastodon #Bluesky Sync 🚀  !

Synchronization of posts works, but I'm still testing things.

https://github.com/klausi/mastodon-bluesky-sync/releases/tag/v0.2.0"
    );
}

#[test]
fn quote_text_ends_in_mark_handle_and_quoted_text() {
    let mut post = plain_post("Look at this");
    post.embed = BskyEmbed::Quote(BskyQuote {
        author_handle: "alice.example".to_string(),
        record: plain_record("The quoted words"),
    });
    assert!(post.is_well_formed());
    let text = bsky_post_unshorten_decode(&post);
    assert_eq!(text, "Look at this\n\n💬 alice.example: The quoted words");
    assert!(text.ends_with("\n\n💬 alice.example: The quoted words"));
}

#[test]
fn quote_is_one_level_deep() {
    // The quoted record is shown with its own text and links only.
    let mut post = plain_post("Outer");
    post.embed = BskyEmbed::Quote(BskyQuote {
        author_handle: "bob.example".to_string(),
        record: plain_record("Inner, which itself quoted something"),
    });
    assert!(post.is_well_formed());
    assert_eq!(
        bsky_post_unshorten_decode(&post),
        "Outer\n\n💬 bob.example: Inner, which itself quoted something"
    );
}

#[test]
fn repost_gets_mark_and_handle() {
    let mut post = plain_post("First-hand words");
    post.is_repost = true;
    post.author_handle = "carol.example".to_string();
    assert!(post.is_well_formed());
    assert_eq!(bsky_post_unshorten_decode(&post), "♻️ carol.example: First-hand words");
}

#[test]
fn repost_with_quote_has_both() {
    let mut post = plain_post("Own");
    post.is_repost = true;
    post.embed = BskyEmbed::Quote(BskyQuote {
        author_handle: "dave.example".to_string(),
        record: plain_record("Quoted"),
    });
    assert!(post.is_well_formed());
    assert_eq!(bsky_post_unshorten_decode(&post), "♻️ klau.si: Own\n\n💬 dave.example: Quoted");
}

#[test]
fn other_embeds_add_nothing() {
    let mut post = plain_post("Just text");
    post.embed = BskyEmbed::Other;
    assert!(post.is_well_formed());
    assert_eq!(bsky_post_unshorten_decode(&post), "Just text");
    post.embed = BskyEmbed::Images(vec![BskyImage {
        fullsize: "https://cdn.example/a.jpg".to_string(),
        alt: "A".to_string(),
    }]);
    assert_eq!(bsky_post_unshorten_decode(&post), "Just text");
}

#[test]
fn record_without_facets_is_its_text() {
    let record = plain_record("Nothing to expand äöü 🚀");
    assert!(record.is_well_formed());
    assert_eq!(bsky_record_get_text(&record), "Nothing to expand äöü 🚀");
}

#[test]
fn record_link_is_written_out() {
    let text = "See example.com/lo... for more".to_string();
    let start = text.find("example.com").unwrap();
    let end = start + "example.com/lo...".len();
    let record = BskyRecord {
        text,
        facets: vec![Facet {
            byte_start: start,
            byte_end: end,
            link: Some("https://example.com/long/path".to_string()),
        }],
    };
    assert!(record.is_well_formed());
    assert_eq!(bsky_record_get_text(&record), "See https://example.com/long/path for more");
}

#[test]
fn record_every_link_is_written_out() {
    let text = "🚀 a.example/... and b.example/... end".to_string();
    let first = text.find("a.example").unwrap();
    let second = text.find("b.example").unwrap();
    let record = BskyRecord {
        text,
        facets: vec![
            Facet {
                byte_start: first,
                byte_end: first + "a.example/...".len(),
                link: Some("https://a.example/one".to_string()),
            },
            Facet {
                byte_start: second,
                byte_end: second + "b.example/...".len(),
                link: Some("https://b.example/two".to_string()),
            },
        ],
    };
    assert!(record.is_well_formed());
    assert_eq!(
        bsky_record_get_text(&record),
        "🚀 https://a.example/one and https://b.example/two end"
    );
}

#[test]
fn record_offsets_count_bytes_not_characters() {
    // "ä" takes two bytes: the link begins at byte 3, behind "ä ".
    let record = BskyRecord {
        text: "ä x.example".to_string(),
        facets: vec![Facet {
            byte_start: 3,
            byte_end: 12,
            link: Some("https://x.example/".to_string()),
        }],
    };
    assert!(record.is_well_formed());
    assert_eq!(bsky_record_get_text(&record), "ä https://x.example/");
}

#[test]
fn record_facets_without_link_change_nothing() {
    let record = BskyRecord {
        text: "Hello #tag".to_string(),
        facets: vec![Facet { byte_start: 6, byte_end: 10, link: None }],
    };
    assert!(record.is_well_formed());
    assert_eq!(bsky_record_get_text(&record), "Hello #tag");
}

#[test]
fn record_with_empty_link_range_inserts_the_link() {
    let record = BskyRecord {
        text: "ab".to_string(),
        facets: vec![Facet { byte_start: 1, byte_end: 1, link: Some("X".to_string()) }],
    };
    assert!(record.is_well_formed());
    assert_eq!(bsky_record_get_text(&record), "aXb");
}

#[test]
fn record_is_malformed_when_a_link_leaves_the_text() {
    let record = BskyRecord {
        text: "short".to_string(),
        facets: vec![Facet { byte_start: 2, byte_end: 9, link: Some("u".to_string()) }],
    };
    assert!(!record.is_well_formed());
}

#[test]
fn record_is_malformed_when_a_link_ends_before_it_starts() {
    let record = BskyRecord {
        text: "short".to_string(),
        facets: vec![Facet { byte_start: 4, byte_end: 2, link: Some("u".to_string()) }],
    };
    assert!(!record.is_well_formed());
}

#[test]
fn record_is_malformed_when_a_link_splits_a_character() {
    let record = BskyRecord {
        text: "ä link".to_string(),
        facets: vec![Facet { byte_start: 1, byte_end: 4, link: Some("u".to_string()) }],
    };
    assert!(!record.is_well_formed());
}

#[test]
fn record_is_malformed_when_links_overlap() {
    let overlapping = BskyRecord {
        text: "0123456789".to_string(),
        facets: vec![
            Facet { byte_start: 0, byte_end: 5, link: Some("u".to_string()) },
            Facet { byte_start: 4, byte_end: 8, link: Some("v".to_string()) },
        ],
    };
    assert!(!overlapping.is_well_formed());
    let inside = BskyRecord {
        text: "0123456789".to_string(),
        facets: vec![
            Facet { byte_start: 2, byte_end: 4, link: Some("u".to_string()) },
            Facet { byte_start: 0, byte_end: 9, link: Some("v".to_string()) },
        ],
    };
    assert!(!inside.is_well_formed());
}

#[test]
fn record_links_may_come_in_any_order() {
    let record = BskyRecord {
        text: "0123456789".to_string(),
        facets: vec![
            Facet { byte_start: 6, byte_end: 8, link: Some("<late>".to_string()) },
            Facet { byte_start: 3, byte_end: 3, link: None },
            Facet { byte_start: 0, byte_end: 2, link: Some("<early>".to_string()) },
            Facet { byte_start: 4, byte_end: 6, link: Some("<mid>".to_string()) },
        ],
    };
    assert!(record.is_well_formed());
    assert_eq!(bsky_record_get_text(&record), "<early>23<mid><late>89");
}

#[test]
fn record_links_at_the_same_place_keep_their_order() {
    let record = BskyRecord {
        text: "abcd".to_string(),
        facets: vec![
            Facet { byte_start: 2, byte_end: 4, link: Some("[cd]".to_string()) },
            Facet { byte_start: 2, byte_end: 2, link: Some("[1]".to_string()) },
            Facet { byte_start: 2, byte_end: 2, link: Some("[2]".to_string()) },
        ],
    };
    assert!(record.is_well_formed());
    assert_eq!(bsky_record_get_text(&record), "ab[1][2][cd]");
}

#[test]
fn record_facets_without_link_may_lie_anywhere() {
    let record = BskyRecord {
        text: "abc".to_string(),
        facets: vec![Facet { byte_start: 7, byte_end: 2, link: None }],
    };
    assert!(record.is_well_formed());
    assert_eq!(bsky_record_get_text(&record), "abc");
}

#[test]
fn post_without_a_key_can_be_read_while_its_text_fits() {
    let mut post = plain_post("a text that fits");
    post.uri = "at://did:plc:abc/app.bsky.feed.post/".to_string();
    assert!(post.is_well_formed());
    assert!(post_is_readable(&post));
    assert_eq!(bsky_post_unshorten_decode(&post), "a text that fits");
    assert_eq!(
        bsky_post_unshorten_decode_checked(&post),
        Some("a text that fits".to_string())
    );
    post.uri = String::new();
    assert!(post_is_readable(&post));
    assert_eq!(bsky_post_unshorten_decode(&post), "a text that fits");
}

#[test]
fn post_without_a_key_cannot_be_read_when_its_text_is_too_long() {
    let mut post = plain_post(&"word ".repeat(120));
    assert!(post_is_readable(&post));
    post.uri = "at://did:plc:abc/app.bsky.feed.post/".to_string();
    assert!(post.is_well_formed());
    assert!(!post_is_readable(&post));
    assert_eq!(bsky_post_unshorten_decode_checked(&post), None);
    post.uri = String::new();
    assert!(!post_is_readable(&post));
    post.uri = "3lb3f2ko4rc23".to_string();
    assert!(post_is_readable(&post));
    assert!(bsky_post_unshorten_decode_checked(&post)
        .unwrap()
        .ends_with("… https://bsky.app/profile/klau.si/post/3lb3f2ko4rc23"));
}

#[test]
fn post_with_a_malformed_record_cannot_be_read() {
    let mut post = plain_post("short");
    post.record.facets =
        vec![Facet { byte_start: 2, byte_end: 9, link: Some("u".to_string()) }];
    assert!(!post_is_readable(&post));
    assert_eq!(bsky_post_unshorten_decode_checked(&post), None);
}

#[test]
fn flattened_text_is_not_shortened() {
    let mut post = plain_post(&"word ".repeat(120));
    post.is_repost = true;
    assert_eq!(bsky_post_flatten(&post), format!("♻️ klau.si: {}", "word ".repeat(120)));
}

#[test]
fn schemes_and_escapes_are_taken_out_of_a_lowercase_text() {
    assert_eq!(
        drop_schemes_and_escapes("see https://a.example and http://b.example \\@bob \\@"),
        "see a.example and b.example @bob @"
    );
    // Capitals are left alone here: lowering comes before.
    assert_eq!(drop_schemes_and_escapes("HTTPS://A.example"), "HTTPS://A.example");
    assert_eq!(drop_schemes_and_escapes("hthttp://tps://x"), "x");
}

#[test]
fn post_is_malformed_when_its_quote_is() {
    let mut post = plain_post("text");
    post.embed = BskyEmbed::Quote(BskyQuote {
        author_handle: "x.example".to_string(),
        record: BskyRecord {
            text: "q".to_string(),
            facets: vec![Facet { byte_start: 0, byte_end: 5, link: Some("u".to_string()) }],
        },
    });
    assert!(!post.is_well_formed());
}

#[test]
fn toot_text_has_newlines_for_breaks() {
    let toot = plain_toot("<p>One<br />two<br>three</p><p>four</p>");
    assert_eq!(mastodon_toot_get_text(&toot), "One\ntwo\nthree\n\nfour");
}

#[test]
fn line_breaks_are_converted_in_order() {
    assert_eq!(convert_line_breaks("<p>a</p><p>b<br>c<br />d</p>"), "a\n\nb\nc\nd");
    assert_eq!(convert_line_breaks("no markup"), "no markup");
}

#[test]
fn toot_text_loses_its_tags() {
    let toot = plain_toot(
        "<p>Read <a href=\"https://example.com/\" class=\"x\"><span>example.com</span></a> now</p>",
    );
    assert_eq!(mastodon_toot_get_text(&toot), "Read example.com now");
}

#[test]
fn toot_text_decodes_character_references() {
    let toot = plain_toot("<p>Fish &amp; chips &lt;3 &quot;yes&quot; &#39;ok&#39;</p>");
    assert_eq!(mastodon_toot_get_text(&toot), "Fish & chips <3 \"yes\" 'ok'");
}

#[test]
fn toot_text_escapes_mentions_behind_a_space() {
    let toot = plain_toot("<p>Hello @alice and @bob</p>");
    assert_eq!(mastodon_toot_get_text(&toot), "Hello \\@alice and \\@bob");
}

#[test]
fn mention_at_the_start_is_not_escaped() {
    assert_eq!(escape_mentions("@alice hello"), "@alice hello");
    assert_eq!(escape_mentions("hi\n@alice"), "hi\n@alice");
}

#[test]
fn escaping_mentions_twice_changes_nothing_more() {
    let once = escape_mentions("Hello @alice, mail me at a@b.example @bob");
    assert_eq!(once, "Hello \\@alice, mail me at a@b.example \\@bob");
    assert_eq!(escape_mentions(&once), once);
}

#[test]
fn boost_is_shown_with_mark_and_author() {
    let mut toot = plain_toot("");
    toot.reblog = Some(Boost {
        username: "alice".to_string(),
        content: "<p>Boosted &amp; proud</p>".to_string(),
        url: Some("https://other.example/@alice/7".to_string()),
        media_attachments: Vec::new(),
    });
    assert_eq!(mastodon_toot_get_text(&toot), "♻️ alice: Boosted & proud");
}

#[test]
fn unify_lowers_and_drops_schemes() {
    assert_eq!(
        unify_post_content("Visit HTTPS://Example.com and http://Other.example NOW".to_string()),
        "visit example.com and other.example now"
    );
}

#[test]
fn unify_takes_mention_escapes_back() {
    assert_eq!(unify_post_content("Hello \\@Alice and @Bob".to_string()), "hello @alice and @bob");
}

#[test]
fn unify_makes_escaped_and_plain_mentions_equal() {
    let escaped = unify_post_content(escape_mentions("Thanks @alice for this"));
    let plain = unify_post_content("Thanks @alice for this".to_string());
    assert_eq!(escaped, plain);
}

#[test]
fn unify_leaves_an_empty_text_empty() {
    assert_eq!(unify_post_content(String::new()), "");
}

#[test]
fn truncate_keeps_short_texts() {
    assert_eq!(truncate_option_string(None, 10), None);
    assert_eq!(truncate_option_string(Some("short".to_string()), 10), Some("short".to_string()));
    assert_eq!(truncate_option_string(Some("exact".to_string()), 5), Some("exact".to_string()));
    assert_eq!(truncate_option_string(Some(String::new()), 0), Some(String::new()));
}

#[test]
fn truncate_cuts_by_characters() {
    assert_eq!(truncate_option_string(Some("abcdef".to_string()), 3), Some("abc".to_string()));
    assert_eq!(truncate_option_string(Some("äöüß".to_string()), 2), Some("äö".to_string()));
    assert_eq!(truncate_option_string(Some("🚀🚀🚀".to_string()), 1), Some("🚀".to_string()));
    assert_eq!(truncate_option_string(Some("abc".to_string()), 0), Some(String::new()));
}

#[test]
fn bsky_attachments_are_the_images() {
    let mut post = plain_post("with images");
    post.embed = BskyEmbed::Images(vec![
        BskyImage { fullsize: "https://cdn.example/1.jpg".to_string(), alt: "first".to_string() },
        BskyImage { fullsize: "https://cdn.example/2.jpg".to_string(), alt: String::new() },
    ]);
    let links = bsky_get_attachments(&post);
    assert_eq!(links.len(), 2);
    assert_eq!(links[0].attachment_url, "https://cdn.example/1.jpg");
    assert_eq!(links[0].alt_text, Some("first".to_string()));
    assert_eq!(links[1].attachment_url, "https://cdn.example/2.jpg");
    assert_eq!(links[1].alt_text, Some(String::new()));
}

#[test]
fn bsky_attachments_are_empty_without_images() {
    assert!(bsky_get_attachments(&plain_post("none")).is_empty());
    assert!(bsky_get_attachments(&quote_post()).is_empty());
}

#[test]
fn bsky_alt_text_is_cut_to_a_thousand_characters() {
    let mut post = plain_post("long alt");
    post.embed = BskyEmbed::Images(vec![
        BskyImage { fullsize: "https://cdn.example/1.jpg".to_string(), alt: "ä".repeat(1500) },
        BskyImage { fullsize: "https://cdn.example/2.jpg".to_string(), alt: "x".repeat(1000) },
    ]);
    let links = bsky_get_attachments(&post);
    assert_eq!(links[0].alt_text, Some("ä".repeat(1000)));
    assert_eq!(links[1].alt_text, Some("x".repeat(1000)));
}

#[test]
fn toot_attachments_are_its_own() {
    let mut toot = plain_toot("<p>pic</p>");
    toot.media_attachments = vec![
        TootAttachment {
            url: "https://files.example/a.png".to_string(),
            description: Some("described".to_string()),
        },
        TootAttachment { url: "https://files.example/b.png".to_string(), description: None },
    ];
    toot.reblog = Some(Boost {
        username: "alice".to_string(),
        content: String::new(),
        url: None,
        media_attachments: vec![TootAttachment {
            url: "https://files.example/boost.png".to_string(),
            description: None,
        }],
    });
    let links = toot_get_attachments(&toot);
    assert_eq!(links.len(), 2);
    assert_eq!(links[0].attachment_url, "https://files.example/a.png");
    assert_eq!(links[0].alt_text, Some("described".to_string()));
    assert_eq!(links[1].attachment_url, "https://files.example/b.png");
    assert_eq!(links[1].alt_text, None);
}

#[test]
fn boost_without_attachments_has_those_of_the_boosted_toot() {
    let mut toot = plain_toot("");
    toot.reblog = Some(Boost {
        username: "alice".to_string(),
        content: "<p>pic</p>".to_string(),
        url: None,
        media_attachments: vec![TootAttachment {
            url: "https://files.example/boost.png".to_string(),
            description: Some("boosted".to_string()),
        }],
    });
    let links = toot_get_attachments(&toot);
    assert_eq!(links.len(), 1);
    assert_eq!(links[0].attachment_url, "https://files.example/boost.png");
    assert_eq!(links[0].alt_text, Some("boosted".to_string()));
}

#[test]
fn toot_alt_text_is_cut_to_a_thousand_characters() {
    let mut toot = plain_toot("<p>pic</p>");
    toot.media_attachments = vec![
        TootAttachment {
            url: "https://files.example/a.png".to_string(),
            description: Some("ä".repeat(1001)),
        },
        TootAttachment {
            url: "https://files.example/b.png".to_string(),
            description: Some("b".repeat(1000)),
        },
    ];
    let links = toot_get_attachments(&toot);
    assert_eq!(links[0].alt_text, Some("ä".repeat(1000)));
    assert_eq!(links[1].alt_text, Some("b".repeat(1000)));
}

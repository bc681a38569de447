//! The content normalizer: the text of a post as it is shown, and the form
//! in which two texts are compared.

use crate::markup::{decode_html_entities, entities_decoded, strip_tags, without_tags};
use crate::posts::{
    lemma_valid_between, link_order, links_fit, order_of_links, BskyEmbed, BskyPost, BskyRecord,
    Facet, Toot,
};
use crate::segment::{grapheme_count, last_segment};
use crate::shorten::{
    mastodon_tail, mastodon_text, toot_shorten, toot_shorten_checked, MASTODON_LIMIT,
};
use crate::text::{from_utf8, lowercase, replace, replaced, to_lowercase};
use vstd::prelude::*;
use vstd::string::*;
use vstd::utf8::*;

verus! {

/// `s` with each mention escaped: a backslash goes before every `@` that
/// follows a space.
pub open spec fn escaped_mentions(s: Seq<char>) -> Seq<char> {
    replaced(s, " @"@, " \\@"@)
}

/// `s` with the escape of each mention taken back.
pub open spec fn unescaped_mentions(s: Seq<char>) -> Seq<char> {
    replaced(s, " \\@"@, " @"@)
}

/// `lower` without `http://` and `https://`, and with no mention escaped.
pub open spec fn without_schemes_and_escapes(lower: Seq<char>) -> Seq<char> {
    unescaped_mentions(replaced(replaced(lower, "http://"@, ""@), "https://"@, ""@))
}

/// The form in which texts are compared: in lowercase, without `http://`
/// and `https://`, and with no mention escaped.
pub open spec fn unified(content: Seq<char>) -> Seq<char> {
    without_schemes_and_escapes(lowercase(content))
}

/// `html` with its line breaks and paragraph breaks as newlines, and
/// without the paragraph tags that are left.
pub open spec fn line_breaks_converted(html: Seq<char>) -> Seq<char> {
    replaced(
        replaced(
            replaced(replaced(replaced(html, "<br />"@, "\n"@), "<br>"@, "\n"@), "</p><p>"@, "\n\n"@),
            "<p>"@,
            ""@,
        ),
        "</p>"@,
        ""@,
    )
}

/// The content that a toot shows, as HTML: its own, or for a boost the
/// boosted content behind a mark and the name of its author.
pub open spec fn toot_source(toot: Toot) -> Seq<char> {
    match toot.reblog {
        Some(boost) => "♻️ "@ + boost.username@ + ": "@ + boost.content@,
        None => toot.content@,
    }
}

/// The text of a toot: its content without markup, with mentions escaped
/// and character references decoded.
pub open spec fn toot_text(toot: Toot) -> Seq<char> {
    entities_decoded(escaped_mentions(without_tags(line_breaks_converted(toot_source(toot)))))
}

/// The bytes of a record's text from `cursor` on, with the range of each
/// facet at the indices `order[from..]` replaced by the bytes of the
/// facet's address.
pub open spec fn expanded(
    bytes: Seq<u8>,
    facets: Seq<Facet>,
    order: Seq<usize>,
    from: int,
    cursor: int,
) -> Seq<u8>
    decreases order.len() - from,
{
    if from < 0 || from >= order.len() {
        bytes.subrange(cursor, bytes.len() as int)
    } else {
        let facet = facets[order[from] as int];
        bytes.subrange(cursor, facet.byte_start as int) + address_bytes(facet) + expanded(
            bytes,
            facets,
            order,
            from + 1,
            facet.byte_end as int,
        )
    }
}

/// The bytes of the address that a facet stands for; none if it stands for
/// no address.
pub open spec fn address_bytes(facet: Facet) -> Seq<u8> {
    match facet.link {
        Some(uri) => encode_utf8(uri@),
        None => Seq::empty(),
    }
}

/// The full text of a record: its text with the range of each link facet
/// replaced by the facet's address.
pub open spec fn record_text(record: BskyRecord) -> Seq<char> {
    decode_utf8(
        expanded(
            encode_utf8(record.text@),
            record.facets@,
            link_order(record.facets@, record.facets@.len() as int),
            0,
            0,
        ),
    )
}

/// The text of a Bluesky post before it is shortened: the record's full
/// text, behind a mark and the author's handle for a repost, and followed by
/// the quoted post, if there is one, with its author's handle.
pub open spec fn flattened(post: BskyPost) -> Seq<char> {
    let own = if post.is_repost {
        "♻️ "@ + post.author_handle@ + ": "@ + record_text(post.record)
    } else {
        record_text(post.record)
    };
    match post.embed {
        BskyEmbed::Quote(quote) => own + "\n\n💬 "@ + quote.author_handle@ + ": "@ + record_text(
            quote.record,
        ),
        _ => own,
    }
}

/// The text of a Bluesky post as it goes to Mastodon.
pub open spec fn post_text(post: BskyPost) -> Seq<char> {
    mastodon_text(flattened(post), post.author_handle@, post.uri@)
}

/// Whether a post can be read: it is well formed, and if its text is too
/// long for Mastodon, its address ends in the key that the link to the post
/// is made of.
pub open spec fn is_readable(post: BskyPost) -> bool {
    post.wf() && (grapheme_count(flattened(post)) > MASTODON_LIMIT ==> last_segment(
        post.uri@,
    ).len() > 0)
}

/// Whether every post of the list that is no reply can be read. The text
/// of a reply is never read.
pub open spec fn all_readable(posts: Seq<BskyPost>) -> bool {
    forall|i: int| 0 <= i < posts.len() && !posts[i].is_reply ==> is_readable(#[trigger] posts[i])
}

/// Takes `http://` and `https://` out of a text in lowercase, and the
/// escape of each mention.
pub fn drop_schemes_and_escapes(lower: &str) -> (r: String)
    ensures
        r@ == without_schemes_and_escapes(lower@),
{
    proof {
        reveal_strlit("http://");
        reveal_strlit("https://");
        reveal_strlit(" \\@");
    }
    let plain = replace(lower, "http://", "");
    let plain = replace(plain.as_str(), "https://", "");
    replace(plain.as_str(), " \\@", " @")
}

/// Brings a text into the form in which texts are compared.
pub fn unify_post_content(content: String) -> (r: String)
    ensures
        r@ == unified(content@),
{
    let lower = to_lowercase(content.as_str());
    drop_schemes_and_escapes(lower.as_str())
}

/// Escapes the mentions of a text: puts a backslash before every `@` that
/// follows a space.
pub fn escape_mentions(text: &str) -> (r: String)
    ensures
        r@ == escaped_mentions(text@),
{
    proof {
        reveal_strlit(" @");
    }
    replace(text, " @", " \\@")
}

/// Turns the line breaks and paragraph breaks of `html` into newlines and
/// takes the paragraph tags away.
pub fn convert_line_breaks(html: &str) -> (r: String)
    ensures
        r@ == line_breaks_converted(html@),
{
    proof {
        reveal_strlit("<br />");
        reveal_strlit("<br>");
        reveal_strlit("</p><p>");
        reveal_strlit("<p>");
        reveal_strlit("</p>");
    }
    let r = replace(html, "<br />", "\n");
    let r = replace(r.as_str(), "<br>", "\n");
    let r = replace(r.as_str(), "</p><p>", "\n\n");
    let r = replace(r.as_str(), "<p>", "");
    replace(r.as_str(), "</p>", "")
}

/// The text of a toot. A boost is shown as the boosted content behind a
/// mark and the name of its author.
pub fn mastodon_toot_get_text(toot: &Toot) -> (r: String)
    ensures
        r@ == toot_text(*toot),
{
    let source = match &toot.reblog {
        Some(boost) => {
            let mut s = String::from_str("♻️ ");
            s.append(boost.username.as_str());
            s.append(": ");
            s.append(boost.content.as_str());
            s
        },
        None => toot.content.clone(),
    };
    let lines = convert_line_breaks(source.as_str());
    let bare = strip_tags(lines.as_str());
    let escaped = escape_mentions(bare.as_str());
    decode_html_entities(escaped.as_str())
}

/// Appends the bytes of `bytes` from index `from` up to index `to`.
fn push_range(out: &mut Vec<u8>, bytes: &[u8], from: usize, to: usize)
    requires
        from <= to <= bytes@.len(),
    ensures
        final(out)@ == old(out)@ + bytes@.subrange(from as int, to as int),
{
    let mut i: usize = from;
    while i < to
        invariant
            from <= i <= to <= bytes@.len(),
            out@ == old(out)@ + bytes@.subrange(from as int, i as int),
        decreases to - i,
    {
        out.push(bytes[i]);
        i += 1;
        assert(out@ =~= old(out)@ + bytes@.subrange(from as int, i as int));
    }
    assert(out@ =~= old(out)@ + bytes@.subrange(from as int, to as int));
}

/// The full text of a record: its text with the range of each link facet
/// replaced by the address that the facet stands for.
pub fn bsky_record_get_text(record: &BskyRecord) -> (text: String)
    requires
        record.wf(),
    ensures
        text@ == record_text(*record),
{
    let bytes = record.text.as_str().as_bytes();
    let order = order_of_links(&record.facets);
    let mut out: Vec<u8> = Vec::new();
    let mut cursor: usize = 0;
    let mut i: usize = 0;
    let ghost whole = expanded(bytes@, record.facets@, order@, 0, 0);
    proof {
        encode_utf8_valid_utf8(record.text@);
        is_char_boundary_start_end_of_seq(bytes@);
        assert(out@ + whole =~= whole);
    }
    while i < order.len()
        invariant
            i <= order@.len(),
            bytes@ == encode_utf8(record.text@),
            forall|k: int| 0 <= k < order@.len() ==> (#[trigger] order@[k]) < record.facets@.len(),
            valid_utf8(bytes@),
            valid_utf8(out@),
            cursor <= bytes@.len(),
            is_char_boundary(bytes@, cursor as int),
            links_fit(bytes@, record.facets@, order@, i as int, cursor as int),
            whole == expanded(bytes@, record.facets@, order@, 0, 0),
            out@ + expanded(bytes@, record.facets@, order@, i as int, cursor as int) == whole,
        decreases order@.len() - i,
    {
        let facet = &record.facets[order[i]];
        let ghost before = out@;
        let ghost plain = bytes@.subrange(cursor as int, facet.byte_start as int);
        let ghost rest = expanded(
            bytes@,
            record.facets@,
            order@,
            i as int + 1,
            facet.byte_end as int,
        );
        push_range(&mut out, bytes, cursor, facet.byte_start);
        proof {
            lemma_valid_between(bytes@, cursor as int, facet.byte_start as int);
            valid_utf8_concat(before, plain);
        }
        match &facet.link {
            Some(uri) => {
                let address = uri.as_str().as_bytes();
                push_range(&mut out, address, 0, address.len());
                proof {
                    encode_utf8_valid_utf8(uri@);
                    valid_utf8_concat(before + plain, encode_utf8(uri@));
                    assert(address@.subrange(0, address@.len() as int) =~= address@);
                }
            },
            None => {},
        }
        assert(out@ + rest =~= before + (plain + address_bytes(*facet) + rest));
        cursor = facet.byte_end;
        i += 1;
    }
    let ghost before = out@;
    push_range(&mut out, bytes, cursor, bytes.len());
    proof {
        lemma_valid_between(bytes@, cursor as int, bytes@.len() as int);
        valid_utf8_concat(before, bytes@.subrange(cursor as int, bytes@.len() as int));
    }
    from_utf8(out).unwrap()
}

/// The text of a Bluesky post before it is shortened: links written out, a
/// repost marked, a quoted post added.
pub fn bsky_post_flatten(bsky_post: &BskyPost) -> (r: String)
    requires
        bsky_post.wf(),
    ensures
        r@ == flattened(*bsky_post),
{
    let mut text = bsky_record_get_text(&bsky_post.record);
    if bsky_post.is_repost {
        let mut marked = String::from_str("♻️ ");
        marked.append(bsky_post.author_handle.as_str());
        marked.append(": ");
        marked.append(text.as_str());
        text = marked;
    }
    match &bsky_post.embed {
        BskyEmbed::Quote(quote) => {
            let quoted = bsky_record_get_text(&quote.record);
            text.append("\n\n💬 ");
            text.append(quote.author_handle.as_str());
            text.append(": ");
            text.append(quoted.as_str());
        },
        _ => {},
    }
    text
}

/// The text of a Bluesky post as it goes to Mastodon: links written out, a
/// repost marked, a quoted post added, and the whole shortened to what
/// Mastodon takes.
pub fn bsky_post_unshorten_decode(bsky_post: &BskyPost) -> (r: String)
    requires
        is_readable(*bsky_post),
    ensures
        r@ == post_text(*bsky_post),
        grapheme_count(r@) <= MASTODON_LIMIT || r@ == mastodon_tail(
            bsky_post.author_handle@,
            bsky_post.uri@,
        ),
{
    let text = bsky_post_flatten(bsky_post);
    toot_shorten(text.as_str(), bsky_post)
}

/// The text of a Bluesky post as it goes to Mastodon, or `None` where the
/// post cannot be read.
pub fn bsky_post_unshorten_decode_checked(bsky_post: &BskyPost) -> (r: Option<String>)
    ensures
        r is Some <==> is_readable(*bsky_post),
        r matches Some(text) ==> text@ == post_text(*bsky_post),
{
    if !bsky_post.is_well_formed() {
        return None;
    }
    let text = bsky_post_flatten(bsky_post);
    toot_shorten_checked(text.as_str(), bsky_post)
}

/// Tests whether a post can be read.
pub fn post_is_readable(bsky_post: &BskyPost) -> (ok: bool)
    ensures
        ok == is_readable(*bsky_post),
{
    bsky_post_unshorten_decode_checked(bsky_post).is_some()
}

} // verus!

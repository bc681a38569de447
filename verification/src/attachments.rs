//! The media that a new status carries along.

use crate::posts::{BskyEmbed, BskyImage, BskyPost, Toot, TootAttachment};
use crate::shorten::text_of;
use crate::status::{media_views, MediaView, NewMedia};
use vstd::prelude::*;
use vstd::string::*;

verus! {

/// The number of characters that the text describing a media file may
/// hold.
pub const ALT_TEXT_LIMIT: usize = 1000;

/// The first `max_chars` characters of `s`; all of `s` if it has no more.
pub open spec fn first_chars(s: Seq<char>, max_chars: nat) -> Seq<char> {
    if s.len() <= max_chars {
        s
    } else {
        s.subrange(0, max_chars as int)
    }
}

/// The media link for an image of a Bluesky post. The text that describes
/// the image is cut to `ALT_TEXT_LIMIT` characters.
pub open spec fn media_of_image(image: BskyImage) -> MediaView {
    MediaView {
        attachment_url: image.fullsize@,
        alt_text: Some(first_chars(image.alt@, ALT_TEXT_LIMIT as nat)),
    }
}

/// The media links for a Bluesky post: one for each image it embeds.
pub open spec fn media_of_post(post: BskyPost) -> Seq<MediaView> {
    match post.embed {
        BskyEmbed::Images(images) => images@.map_values(|image: BskyImage| media_of_image(image)),
        _ => Seq::empty(),
    }
}

/// The media link for an attachment of a toot. Its description is cut to
/// `ALT_TEXT_LIMIT` characters.
pub open spec fn media_of_attachment(attachment: TootAttachment) -> MediaView {
    MediaView {
        attachment_url: attachment.url@,
        alt_text: match attachment.description {
            Some(text) => Some(first_chars(text@, ALT_TEXT_LIMIT as nat)),
            None => None,
        },
    }
}

/// The attachments that count for a toot: its own, or those of the boosted
/// toot where it has none of its own.
pub open spec fn attachments_of_toot(toot: Toot) -> Seq<TootAttachment> {
    match toot.reblog {
        Some(boost) if toot.media_attachments@.len() == 0 => boost.media_attachments@,
        _ => toot.media_attachments@,
    }
}

/// The media links for a toot.
pub open spec fn media_of_toot(toot: Toot) -> Seq<MediaView> {
    attachments_of_toot(toot).map_values(
        |attachment: TootAttachment| media_of_attachment(attachment),
    )
}

/// Cuts a text to its first `max_chars` characters.
pub fn truncate_option_string(stringy: Option<String>, max_chars: usize) -> (r: Option<String>)
    ensures
        text_of(r) == match stringy {
            Some(s) => Some(first_chars(s@, max_chars as nat)),
            None => None,
        },
{
    match stringy {
        Some(string) => {
            if string.as_str().unicode_len() <= max_chars {
                Some(string)
            } else {
                Some(String::from_str(string.as_str().substring_char(0, max_chars)))
            }
        },
        None => None,
    }
}

/// The links to the images of a Bluesky post.
pub fn bsky_get_attachments(bsky_post: &BskyPost) -> (links: Vec<NewMedia>)
    ensures
        media_views(links@) == media_of_post(*bsky_post),
{
    let mut links: Vec<NewMedia> = Vec::new();
    match &bsky_post.embed {
        BskyEmbed::Images(images) => {
            let mut i: usize = 0;
            while i < images.len()
                invariant
                    i <= images@.len(),
                    links@.len() == i,
                    forall|k: int| 0 <= k < i ==> links@[k]@ == media_of_image(images@[k]),
                decreases images@.len() - i,
            {
                let image = &images[i];
                links.push(
                    NewMedia {
                        attachment_url: image.fullsize.clone(),
                        alt_text: truncate_option_string(
                            Some(image.alt.clone()),
                            ALT_TEXT_LIMIT,
                        ),
                    },
                );
                i += 1;
            }
            assert(media_views(links@) =~= media_of_post(*bsky_post));
        },
        _ => {
            assert(media_views(links@) =~= Seq::empty());
        },
    }
    links
}

/// The links to the attachments of a toot. A boost without attachments of
/// its own has those of the boosted toot.
pub fn toot_get_attachments(toot: &Toot) -> (links: Vec<NewMedia>)
    ensures
        media_views(links@) == media_of_toot(*toot),
{
    let mut links: Vec<NewMedia> = Vec::new();
    let attachments = match &toot.reblog {
        Some(boost) if toot.media_attachments.len() == 0 => &boost.media_attachments,
        _ => &toot.media_attachments,
    };
    let mut i: usize = 0;
    while i < attachments.len()
        invariant
            i <= attachments@.len(),
            links@.len() == i,
            forall|k: int| 0 <= k < i ==> links@[k]@ == media_of_attachment(attachments@[k]),
        decreases attachments@.len() - i,
    {
        let attachment = &attachments[i];
        links.push(
            NewMedia {
                attachment_url: attachment.url.clone(),
                alt_text: truncate_option_string(attachment.description.clone(), ALT_TEXT_LIMIT),
            },
        );
        i += 1;
    }
    assert(media_views(links@) =~= media_of_toot(*toot));
    links
}

} // verus!

//! The posts of both sides as the library reads them.
//!
//! A `Toot` holds what is read of a Mastodon status, a `BskyPost` what is
//! read of an entry of a Bluesky feed. Both are plain values: the caller
//! fills them from what the servers sent.

use vstd::prelude::*;
use vstd::utf8::*;

verus! {

/// A media file attached to a toot.
#[derive(Debug, Clone)]
pub struct TootAttachment {
    pub url: String,
    pub description: Option<String>,
}

/// The toot that a boost passes on.
#[derive(Debug, Clone)]
pub struct Boost {
    /// The user name of the author of the boosted toot.
    pub username: String,
    /// The boosted toot's content, as HTML.
    pub content: String,
    /// The boosted toot's address.
    pub url: Option<String>,
    pub media_attachments: Vec<TootAttachment>,
}

/// A status of the Mastodon account.
#[derive(Debug, Clone)]
pub struct Toot {
    /// The content, as HTML.
    pub content: String,
    /// The toot's address.
    pub url: Option<String>,
    /// The toot that this one answers, if it is a reply.
    pub in_reply_to_id: Option<String>,
    /// The boosted toot, if this one is a boost.
    pub reblog: Option<Boost>,
    pub media_attachments: Vec<TootAttachment>,
}

impl Toot {
    /// Whether the toot answers another one.
    pub open spec fn is_reply(&self) -> bool {
        self.in_reply_to_id is Some
    }

    /// Whether the toot passes another one on.
    pub open spec fn is_boost(&self) -> bool {
        self.reblog is Some
    }

    /// The address that a shortened copy of the toot links to: that of the
    /// boosted toot for a boost, else its own.
    pub open spec fn source_url(&self) -> Option<Seq<char>> {
        let url = match self.reblog {
            Some(boost) => boost.url,
            None => self.url,
        };
        match url {
            Some(u) => Some(u@),
            None => None,
        }
    }
}

/// A marked range of a Bluesky post's text, in bytes of its UTF-8 form.
#[derive(Debug, Clone)]
pub struct Facet {
    /// The first byte of the range.
    pub byte_start: usize,
    /// The byte behind the range.
    pub byte_end: usize,
    /// The address that the range stands for, if its first feature is a
    /// link.
    pub link: Option<String>,
}

/// Whether the range of `a` begins before that of `b`, or at the same
/// byte without ending later.
pub open spec fn comes_before(a: Facet, b: Facet) -> bool {
    a.byte_start < b.byte_start || (a.byte_start == b.byte_start && a.byte_end <= b.byte_end)
}

/// The indices `order`, which are in the order of their facets' ranges,
/// with index `i` put in at its place. Behind an index whose range is the
/// same, the later index comes later.
pub open spec fn placed(facets: Seq<Facet>, order: Seq<usize>, i: usize) -> Seq<usize>
    decreases order.len(),
{
    if order.len() == 0 || comes_before(facets[order.last() as int], facets[i as int]) {
        order.push(i)
    } else {
        placed(facets, order.drop_last(), i).push(order.last())
    }
}

/// The indices of the link facets among the first `upto` facets, in the
/// order in which their ranges lie in the text.
pub open spec fn link_order(facets: Seq<Facet>, upto: int) -> Seq<usize>
    decreases upto,
{
    if upto <= 0 {
        Seq::empty()
    } else if facets[upto - 1].link is Some {
        placed(facets, link_order(facets, upto - 1), (upto - 1) as usize)
    } else {
        link_order(facets, upto - 1)
    }
}

/// Whether the facets at the indices `order[from..]` lie in `bytes` one
/// after the other, none before `cursor`, each between two character
/// boundaries.
pub open spec fn links_fit(
    bytes: Seq<u8>,
    facets: Seq<Facet>,
    order: Seq<usize>,
    from: int,
    cursor: int,
) -> bool
    decreases order.len() - from,
{
    if from < 0 || from >= order.len() {
        true
    } else {
        let facet = facets[order[from] as int];
        &&& cursor <= facet.byte_start <= facet.byte_end <= bytes.len()
        &&& is_char_boundary(bytes, facet.byte_start as int)
        &&& is_char_boundary(bytes, facet.byte_end as int)
        &&& links_fit(bytes, facets, order, from + 1, facet.byte_end as int)
    }
}

/// Putting an index in at position `at` is placing it, where no index from
/// `at` on comes before it and the one before `at` does.
proof fn lemma_placed(facets: Seq<Facet>, order: Seq<usize>, i: usize, at: int)
    requires
        0 <= at <= order.len(),
        at > 0 ==> comes_before(facets[order[at - 1] as int], facets[i as int]),
        forall|k: int|
            at <= k < order.len() ==> !comes_before(
                facets[(#[trigger] order[k]) as int],
                facets[i as int],
            ),
    ensures
        placed(facets, order, i) == order.insert(at, i),
    decreases order.len() - at,
{
    if at == order.len() {
        assert(order.insert(at, i) =~= order.push(i));
    } else {
        assert(!comes_before(facets[order[order.len() - 1] as int], facets[i as int]));
        lemma_placed(facets, order.drop_last(), i, at);
        assert(order.drop_last().insert(at, i).push(order.last()) =~= order.insert(at, i));
    }
}

/// Tests whether the range of `a` comes before that of `b`.
fn range_comes_before(a: &Facet, b: &Facet) -> (before: bool)
    ensures
        before == comes_before(*a, *b),
{
    a.byte_start < b.byte_start || (a.byte_start == b.byte_start && a.byte_end <= b.byte_end)
}

/// Puts index `i` in at its place among the indices `order`.
fn place(facets: &Vec<Facet>, order: &mut Vec<usize>, i: usize)
    requires
        i < facets@.len(),
        forall|k: int| 0 <= k < old(order)@.len() ==> (#[trigger] old(order)@[k]) < facets@.len(),
    ensures
        final(order)@ == placed(facets@, old(order)@, i),
        forall|k: int| 0 <= k < final(order)@.len() ==> (#[trigger] final(order)@[k]) < facets@.len(),
{
    let mut at: usize = order.len();
    while at > 0 && !range_comes_before(&facets[order[at - 1]], &facets[i])
        invariant
            at <= order@.len(),
            i < facets@.len(),
            order@ == old(order)@,
            forall|k: int| 0 <= k < order@.len() ==> (#[trigger] order@[k]) < facets@.len(),
            forall|k: int|
                at <= k < order@.len() ==> !comes_before(
                    facets@[(#[trigger] order@[k]) as int],
                    facets@[i as int],
                ),
        decreases at,
    {
        at -= 1;
    }
    proof {
        lemma_placed(facets@, order@, i, at as int);
    }
    order.insert(at, i);
}

/// The indices of the link facets, in the order in which their ranges lie
/// in the text.
pub fn order_of_links(facets: &Vec<Facet>) -> (order: Vec<usize>)
    ensures
        order@ == link_order(facets@, facets@.len() as int),
        forall|k: int| 0 <= k < order@.len() ==> (#[trigger] order@[k]) < facets@.len(),
{
    let mut order: Vec<usize> = Vec::new();
    let mut i: usize = 0;
    while i < facets.len()
        invariant
            i <= facets@.len(),
            order@ == link_order(facets@, i as int),
            forall|k: int| 0 <= k < order@.len() ==> (#[trigger] order@[k]) < facets@.len(),
        decreases facets@.len() - i,
    {
        if facets[i].link.is_some() {
            place(facets, &mut order, i);
        }
        i += 1;
    }
    order
}

/// A character boundary of a text in UTF-8 lies inside the text or at its
/// end.
pub proof fn lemma_boundary_in_range(bytes: Seq<u8>, index: int)
    requires
        valid_utf8(bytes),
        is_char_boundary(bytes, index),
    ensures
        0 <= index <= bytes.len(),
    decreases bytes.len(),
{
    if index != 0 {
        lemma_boundary_in_range(pop_first_scalar(bytes), index - length_of_first_scalar(bytes));
    }
}

/// The bytes between two character boundaries of a text in UTF-8 are
/// UTF-8 themselves.
pub proof fn lemma_valid_between(bytes: Seq<u8>, from: int, to: int)
    requires
        valid_utf8(bytes),
        from <= to,
        is_char_boundary(bytes, from),
        is_char_boundary(bytes, to),
    ensures
        valid_utf8(bytes.subrange(from, to)),
{
    lemma_boundary_in_range(bytes, from);
    lemma_boundary_in_range(bytes, to);
    let head = bytes.subrange(0, to);
    valid_utf8_split(bytes, to);
    if from < to {
        is_char_boundary_iff_not_is_continuation_byte(bytes, from);
        is_char_boundary_iff_not_is_continuation_byte(head, from);
    } else {
        is_char_boundary_start_end_of_seq(head);
    }
    valid_utf8_split(head, from);
    assert(head.subrange(from, head.len() as int) =~= bytes.subrange(from, to));
}

/// The text and the facets of a Bluesky post.
#[derive(Debug, Clone)]
pub struct BskyRecord {
    pub text: String,
    pub facets: Vec<Facet>,
}

impl BskyRecord {
    /// Whether the record's link facets fit its text: taken in the order
    /// in which they lie in the text, they do not overlap, stay inside the
    /// text, and begin and end between two characters.
    pub open spec fn wf(&self) -> bool {
        links_fit(
            encode_utf8(self.text@),
            self.facets@,
            link_order(self.facets@, self.facets@.len() as int),
            0,
            0,
        )
    }

    /// Tests whether the record is well formed.
    pub fn is_well_formed(&self) -> (ok: bool)
        ensures
            ok == self.wf(),
    {
        let text = self.text.as_str();
        let order = order_of_links(&self.facets);
        let ghost bytes = encode_utf8(self.text@);
        let mut cursor: usize = 0;
        let mut i: usize = 0;
        while i < order.len()
            invariant
                i <= order@.len(),
                text@ == self.text@,
                bytes == encode_utf8(self.text@),
                order@ == link_order(self.facets@, self.facets@.len() as int),
                forall|k: int|
                    0 <= k < order@.len() ==> (#[trigger] order@[k]) < self.facets@.len(),
                self.wf() == links_fit(bytes, self.facets@, order@, i as int, cursor as int),
            decreases order@.len() - i,
        {
            let facet = &self.facets[order[i]];
            let fits = cursor <= facet.byte_start && facet.byte_start <= facet.byte_end
                && text.is_char_boundary(facet.byte_start) && text.is_char_boundary(
                facet.byte_end,
            );
            if !fits {
                return false;
            }
            proof {
                encode_utf8_valid_utf8(self.text@);
                lemma_boundary_in_range(bytes, facet.byte_end as int);
            }
            cursor = facet.byte_end;
            i += 1;
        }
        true
    }
}

/// An image attached to a Bluesky post.
#[derive(Debug, Clone)]
pub struct BskyImage {
    /// The address of the image in full size.
    pub fullsize: String,
    /// The text that describes the image.
    pub alt: String,
}

/// The post that a Bluesky post quotes.
#[derive(Debug, Clone)]
pub struct BskyQuote {
    /// The handle of the quoted post's author.
    pub author_handle: String,
    pub record: BskyRecord,
}

/// What a Bluesky post embeds.
#[derive(Debug, Clone)]
pub enum BskyEmbed {
    /// Nothing is embedded.
    Nothing,
    /// Another post is quoted.
    Quote(BskyQuote),
    /// Images are attached.
    Images(Vec<BskyImage>),
    /// Something that is not mirrored.
    Other,
}

/// An entry of the Bluesky account's feed.
#[derive(Debug, Clone)]
pub struct BskyPost {
    /// The post's `at://` address. Its last segment is the post's key, which
    /// a link to the post is made of.
    pub uri: String,
    /// The handle of the post's author.
    pub author_handle: String,
    pub record: BskyRecord,
    pub embed: BskyEmbed,
    /// Whether the entry answers another post.
    pub is_reply: bool,
    /// Whether the account has reposted the post.
    pub is_repost: bool,
}

impl BskyPost {
    /// Whether the post's record and the record it quotes are well formed.
    pub open spec fn wf(&self) -> bool {
        &&& self.record.wf()
        &&& (self.embed matches BskyEmbed::Quote(quote) ==> quote.record.wf())
    }

    /// Tests whether the post is well formed.
    pub fn is_well_formed(&self) -> (ok: bool)
        ensures
            ok == self.wf(),
    {
        if !self.record.is_well_formed() {
            return false;
        }
        match &self.embed {
            BskyEmbed::Quote(quote) => quote.record.is_well_formed(),
            _ => true,
        }
    }
}

} // verus!

use vstd::prelude::*;

use crate::media::{copy_text, Attachment, Embed, EmbedMedia, MediaKind, MediaReference};
use crate::text::{is_prefix_of, starts_with};

verus! {

/// The media-type prefix that marks an attachment as an image.
pub open spec fn image_prefix() -> Seq<char> {
    seq!['i', 'm', 'a', 'g', 'e']
}

/// A declared content type marks an image.
pub open spec fn is_image_type(content_type: Option<String>) -> bool {
    match content_type {
        Some(t) => is_prefix_of(image_prefix(), t@),
        None => false,
    }
}

/// A dimension as stored: absent when it does not fit an `i32`.
pub open spec fn fitted(d: Option<u64>) -> Option<i32> {
    match d {
        Some(v) => if v <= i32::MAX {
            Some(v as i32)
        } else {
            None
        },
        None => None,
    }
}

/// URL, width and height of an embed's image or thumbnail; all absent without one.
pub open spec fn media_fields(m: Option<EmbedMedia>) -> (Option<String>, Option<i32>, Option<i32>) {
    match m {
        Some(x) => (Some(x.url), fitted(x.width), fitted(x.height)),
        None => (None, None, None),
    }
}

/// An embed carries an image or a thumbnail.
pub open spec fn embed_qualifies(e: Embed) -> bool {
    e.image is Some || e.thumbnail is Some
}

/// The reference made of an image attachment.
pub open spec fn attachment_ref(a: Attachment) -> MediaReference {
    MediaReference {
        kind: MediaKind::Attachment,
        source_url: None,
        media_url: Some(a.url),
        media_width: fitted(a.width),
        media_height: fitted(a.height),
        thumbnail_url: None,
        thumbnail_width: None,
        thumbnail_height: None,
    }
}

/// The reference made of a qualifying embed.
pub open spec fn embed_ref(e: Embed) -> MediaReference {
    MediaReference {
        kind: MediaKind::Embed,
        source_url: e.url,
        media_url: media_fields(e.image).0,
        media_width: media_fields(e.image).1,
        media_height: media_fields(e.image).2,
        thumbnail_url: media_fields(e.thumbnail).0,
        thumbnail_width: media_fields(e.thumbnail).1,
        thumbnail_height: media_fields(e.thumbnail).2,
    }
}

/// The references of the image attachments of `s`, in order.
pub open spec fn attachment_refs(s: Seq<Attachment>) -> Seq<MediaReference>
    decreases s.len(),
{
    if s.len() == 0 {
        Seq::empty()
    } else if is_image_type(s.last().content_type) {
        attachment_refs(s.drop_last()).push(attachment_ref(s.last()))
    } else {
        attachment_refs(s.drop_last())
    }
}

/// The references of the qualifying embeds of `s`, in order.
pub open spec fn embed_refs(s: Seq<Embed>) -> Seq<MediaReference>
    decreases s.len(),
{
    if s.len() == 0 {
        Seq::empty()
    } else if embed_qualifies(s.last()) {
        embed_refs(s.drop_last()).push(embed_ref(s.last()))
    } else {
        embed_refs(s.drop_last())
    }
}

/// What a message's attachments and embeds yield: attachments first, each
/// list in its own order.
pub open spec fn extracted(atts: Seq<Attachment>, embeds: Seq<Embed>) -> Seq<MediaReference> {
    attachment_refs(atts) + embed_refs(embeds)
}

/// A reference carries at least one URL.
pub open spec fn has_url(r: MediaReference) -> bool {
    r.source_url is Some || r.media_url is Some || r.thumbnail_url is Some
}

/// A dimension as stored, absent where it does not fit an `i32`.
pub fn fit_dimension(d: Option<u64>) -> (r: Option<i32>)
    ensures
        r == fitted(d),
{
    match d {
        Some(v) => match i32::try_from(v) {
            Ok(x) => Some(x),
            Err(_) => None,
        },
        None => None,
    }
}

/// Whether the attachment declares an image content type.
pub fn attachment_is_image(a: &Attachment) -> (r: bool)
    ensures
        r == is_image_type(a.content_type),
{
    match &a.content_type {
        Some(t) => {
            let prefix = "image";
            proof {
                reveal_strlit("image");
            }
            assert(prefix@ =~= image_prefix());
            starts_with(t.as_str(), prefix)
        },
        None => false,
    }
}

/// URL, width and height of an embed's image or thumbnail.
pub fn transpose_embed_media(m: &Option<EmbedMedia>) -> (r: (Option<String>, Option<i32>, Option<i32>))
    ensures
        r == media_fields(*m),
{
    match m {
        Some(x) => (Some(x.url.clone()), fit_dimension(x.width), fit_dimension(x.height)),
        None => (None, None, None),
    }
}

/// The reference made of an image attachment.
pub fn attachment_to_reference(a: &Attachment) -> (r: MediaReference)
    ensures
        r == attachment_ref(*a),
{
    MediaReference {
        kind: MediaKind::Attachment,
        source_url: None,
        media_url: Some(a.url.clone()),
        media_width: fit_dimension(a.width),
        media_height: fit_dimension(a.height),
        thumbnail_url: None,
        thumbnail_width: None,
        thumbnail_height: None,
    }
}

/// The reference made of an embed.
pub fn embed_to_reference(e: &Embed) -> (r: MediaReference)
    ensures
        r == embed_ref(*e),
{
    let (media_url, media_width, media_height) = transpose_embed_media(&e.image);
    let (thumbnail_url, thumbnail_width, thumbnail_height) = transpose_embed_media(&e.thumbnail);
    MediaReference {
        kind: MediaKind::Embed,
        source_url: copy_text(&e.url),
        media_url,
        media_width,
        media_height,
        thumbnail_url,
        thumbnail_width,
        thumbnail_height,
    }
}

/// The references of the image attachments, in order; other attachments are skipped.
pub fn attachments_to_db(atts: &Vec<Attachment>) -> (r: Vec<MediaReference>)
    ensures
        r@ == attachment_refs(atts@),
{
    let mut out: Vec<MediaReference> = Vec::new();
    let mut i: usize = 0;
    while i < atts.len()
        invariant
            i <= atts@.len(),
            out@ == attachment_refs(atts@.subrange(0, i as int)),
        decreases atts@.len() - i,
    {
        let ghost before = atts@.subrange(0, i as int);
        assert(atts@.subrange(0, i + 1).drop_last() =~= before);
        if attachment_is_image(&atts[i]) {
            out.push(attachment_to_reference(&atts[i]));
        }
        i = i + 1;
    }
    assert(atts@.subrange(0, atts@.len() as int) =~= atts@);
    out
}

/// The references of the embeds with an image or a thumbnail, in order;
/// other embeds are skipped.
pub fn embeds_to_db(embeds: &Vec<Embed>) -> (r: Vec<MediaReference>)
    ensures
        r@ == embed_refs(embeds@),
{
    let mut out: Vec<MediaReference> = Vec::new();
    let mut i: usize = 0;
    while i < embeds.len()
        invariant
            i <= embeds@.len(),
            out@ == embed_refs(embeds@.subrange(0, i as int)),
        decreases embeds@.len() - i,
    {
        let ghost before = embeds@.subrange(0, i as int);
        assert(embeds@.subrange(0, i + 1).drop_last() =~= before);
        let e = &embeds[i];
        if e.image.is_some() || e.thumbnail.is_some() {
            out.push(embed_to_reference(e));
        }
        i = i + 1;
    }
    assert(embeds@.subrange(0, embeds@.len() as int) =~= embeds@);
    out
}

/// The media references of a message: those of its image attachments, then
/// those of its embeds that carry an image or a thumbnail.
pub fn extract_media(atts: &Vec<Attachment>, embeds: &Vec<Embed>) -> (r: Vec<MediaReference>)
    ensures
        r@ == extracted(atts@, embeds@),
        forall|k: int| 0 <= k < r@.len() ==> has_url(#[trigger] r@[k]),
{
    let mut out = attachments_to_db(atts);
    let mut rest = embeds_to_db(embeds);
    out.append(&mut rest);
    proof {
        lemma_extracted_have_urls(atts@, embeds@);
        assert(out@ == extracted(atts@, embeds@));
    }
    out
}

/// Every extracted reference carries a URL.
pub proof fn lemma_extracted_have_urls(atts: Seq<Attachment>, embeds: Seq<Embed>)
    ensures
        forall|k: int|
            0 <= k < extracted(atts, embeds).len() ==> has_url(#[trigger] extracted(atts, embeds)[k]),
{
    lemma_attachment_refs_have_urls(atts);
    lemma_embed_refs_have_urls(embeds);
    let a = attachment_refs(atts);
    let e = embed_refs(embeds);
    assert forall|k: int| 0 <= k < (a + e).len() implies has_url(#[trigger] (a + e)[k]) by {
        if k >= a.len() {
            assert((a + e)[k] == e[k - a.len()]);
        }
    }
}

proof fn lemma_attachment_refs_have_urls(s: Seq<Attachment>)
    ensures
        forall|k: int| 0 <= k < attachment_refs(s).len() ==> has_url(#[trigger] attachment_refs(s)[k]),
    decreases s.len(),
{
    if s.len() > 0 {
        lemma_attachment_refs_have_urls(s.drop_last());
        let prev = attachment_refs(s.drop_last());
        assert forall|k: int| 0 <= k < attachment_refs(s).len() implies has_url(#[trigger] attachment_refs(s)[k]) by {
            if is_image_type(s.last().content_type) && k < prev.len() {
                assert(attachment_refs(s)[k] == prev[k]);
            }
        }
    }
}

proof fn lemma_embed_refs_have_urls(s: Seq<Embed>)
    ensures
        forall|k: int| 0 <= k < embed_refs(s).len() ==> has_url(#[trigger] embed_refs(s)[k]),
    decreases s.len(),
{
    if s.len() > 0 {
        lemma_embed_refs_have_urls(s.drop_last());
        let prev = embed_refs(s.drop_last());
        assert forall|k: int| 0 <= k < embed_refs(s).len() implies has_url(#[trigger] embed_refs(s)[k]) by {
            if embed_qualifies(s.last()) && k < prev.len() {
                assert(embed_refs(s)[k] == prev[k]);
            }
        }
    }
}

/// An attachment whose content type is not an image contributes nothing:
/// taking it out of the message leaves the extracted references as they were.
pub proof fn lemma_non_image_attachment_excluded(atts: Seq<Attachment>, embeds: Seq<Embed>, i: int)
    requires
        0 <= i < atts.len(),
        !is_image_type(atts[i].content_type),
    ensures
        extracted(atts, embeds) == extracted(atts.remove(i), embeds),
{
    lemma_attachment_refs_skip(atts, i);
}

proof fn lemma_attachment_refs_skip(s: Seq<Attachment>, i: int)
    requires
        0 <= i < s.len(),
        !is_image_type(s[i].content_type),
    ensures
        attachment_refs(s) == attachment_refs(s.remove(i)),
    decreases s.len(),
{
    if i == s.len() - 1 {
        assert(s.remove(i) =~= s.drop_last());
    } else {
        lemma_attachment_refs_skip(s.drop_last(), i);
        assert(s.remove(i).drop_last() =~= s.drop_last().remove(i));
        assert(s.remove(i).last() == s.last());
    }
}

/// An embed with neither an image nor a thumbnail contributes nothing:
/// taking it out of the message leaves the extracted references as they were.
pub proof fn lemma_bare_embed_excluded(atts: Seq<Attachment>, embeds: Seq<Embed>, i: int)
    requires
        0 <= i < embeds.len(),
        embeds[i].image is None,
        embeds[i].thumbnail is None,
    ensures
        extracted(atts, embeds) == extracted(atts, embeds.remove(i)),
{
    lemma_embed_refs_skip(embeds, i);
}

proof fn lemma_embed_refs_skip(s: Seq<Embed>, i: int)
    requires
        0 <= i < s.len(),
        !embed_qualifies(s[i]),
    ensures
        embed_refs(s) == embed_refs(s.remove(i)),
    decreases s.len(),
{
    if i == s.len() - 1 {
        assert(s.remove(i) =~= s.drop_last());
    } else {
        lemma_embed_refs_skip(s.drop_last(), i);
        assert(s.remove(i).drop_last() =~= s.drop_last().remove(i));
        assert(s.remove(i).last() == s.last());
    }
}

/// Extraction depends on the attachments and embeds alone: two runs on the
/// same message give the same references.
pub proof fn lemma_extraction_deterministic(
    atts: Seq<Attachment>,
    embeds: Seq<Embed>,
    first: Seq<MediaReference>,
    second: Seq<MediaReference>,
)
    requires
        first == extracted(atts, embeds),
        second == extracted(atts, embeds),
    ensures
        first == second,
{
}

} // verus!

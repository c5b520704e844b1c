use vstd::prelude::*;

use crate::extract::{embeds_to_db, attachments_to_db, extract_media, extracted};
use crate::media::{Attachment, Embed, MediaReference};
use crate::store::{
    gallery_of_channel, new_rows, posts_of_message, without_message, Gallery, GalleryPost,
    GalleryStore, PostBatch, StoreError, StoreView, lemma_posts_where_concat,
    lemma_posts_where_sub, lemma_without_message_leaves_none, lemma_posts_of_message_all,
};

verus! {

/// A message as it was posted.
#[derive(Debug, PartialEq, Eq)]
pub struct MessageCreated {
    pub id: u64,
    pub channel_id: u64,
    pub attachments: Vec<Attachment>,
    pub embeds: Vec<Embed>,
}

/// An edit of a message. A list the platform did not send counts as empty.
#[derive(Debug, PartialEq, Eq)]
pub struct MessageEdited {
    pub id: u64,
    pub channel_id: u64,
    pub attachments: Option<Vec<Attachment>>,
    pub embeds: Option<Vec<Embed>>,
}

/// The items of a list that may be absent; an absent list is empty.
pub open spec fn listed<T>(o: Option<Vec<T>>) -> Seq<T> {
    match o {
        Some(v) => v@,
        None => Seq::empty(),
    }
}

impl MessageCreated {
    /// The media references that the message yields.
    pub open spec fn media(&self) -> Seq<MediaReference> {
        extracted(self.attachments@, self.embeds@)
    }
}

impl MessageEdited {
    /// The media references that the edited message yields.
    pub open spec fn media(&self) -> Seq<MediaReference> {
        extracted(listed(self.attachments), listed(self.embeds))
    }
}

/// `b` carries `refs` of message `m` for gallery `gallery`.
pub open spec fn batch_is(b: PostBatch, gallery: u128, m: u64, refs: Seq<MediaReference>) -> bool {
    b.gallery == gallery && b.message_id == m && b.posts@ == refs
}

/// Whether a new message can yield media at all. A message without
/// attachments and embeds needs no gallery lookup.
pub fn has_media_candidates(msg: &MessageCreated) -> (r: bool)
    ensures
        r == (msg.attachments@.len() > 0 || msg.embeds@.len() > 0),
        !r ==> msg.media().len() == 0,
{
    msg.attachments.len() > 0 || msg.embeds.len() > 0
}

/// The batch to insert for a new message, once the gallery of its channel
/// is known. Nothing is written for a channel without a gallery, nor for a
/// message that yields no media.
pub fn plan_new_message(msg: &MessageCreated, gallery: &Option<Gallery>) -> (r: Option<PostBatch>)
    ensures
        gallery is None ==> r is None,
        gallery is Some && msg.media().len() == 0 ==> r is None,
        gallery is Some && msg.media().len() > 0 ==> r is Some && batch_is(
            r->Some_0,
            gallery->Some_0.pk,
            msg.id,
            msg.media(),
        ),
{
    match gallery {
        None => None,
        Some(g) => {
            let posts = extract_media(&msg.attachments, &msg.embeds);
            if posts.len() == 0 {
                None
            } else {
                Some(PostBatch { gallery: g.pk, message_id: msg.id, posts })
            }
        },
    }
}

/// The media references of an edited message; absent lists count as empty.
pub fn edited_media(ev: &MessageEdited) -> (r: Vec<MediaReference>)
    ensures
        r@ == ev.media(),
{
    let mut out = match &ev.attachments {
        Some(atts) => attachments_to_db(atts),
        None => Vec::new(),
    };
    let mut rest = match &ev.embeds {
        Some(embeds) => embeds_to_db(embeds),
        None => Vec::new(),
    };
    out.append(&mut rest);
    assert(out@ =~= ev.media());
    out
}

/// The batch that replaces every post of an edited message, once the gallery
/// of its channel is known. The batch may be empty: the old posts go anyway.
pub fn plan_message_update(ev: &MessageEdited, gallery: &Option<Gallery>) -> (r: Option<PostBatch>)
    ensures
        gallery is None ==> r is None,
        gallery is Some ==> r is Some && batch_is(r->Some_0, gallery->Some_0.pk, ev.id, ev.media()),
{
    let posts = edited_media(ev);
    match gallery {
        None => None,
        Some(g) => Some(PostBatch { gallery: g.pk, message_id: ev.id, posts }),
    }
}

/// A gallery found for a channel is a stored gallery.
proof fn lemma_found_gallery_stored(v: StoreView, c: u64)
    requires
        gallery_of_channel(v.galleries, c) is Some,
    ensures
        v.has_gallery(gallery_of_channel(v.galleries, c)->Some_0.pk),
{
    let j = choose|j: int| 0 <= j < v.galleries.len() && v.galleries[j].channel_id == c;
    assert(v.galleries[j] == gallery_of_channel(v.galleries, c)->Some_0);
}

impl GalleryStore {
    /// Stores the media of a new message in the gallery of its channel,
    /// stamped `now`.
    ///
    /// A message in a channel without a gallery, or one that yields no media,
    /// writes nothing. A store error leaves the store as it was.
    pub fn handle_new_message(&mut self, msg: &MessageCreated, now: i64) -> (r: Result<(), StoreError>)
        requires
            old(self).wf(),
        ensures
            final(self).wf(),
            gallery_of_channel(old(self)@.galleries, msg.channel_id) is None ==> r is Ok
                && final(self)@ == old(self)@,
            msg.media().len() == 0 ==> r is Ok && final(self)@ == old(self)@,
            ({
                let g = gallery_of_channel(old(self)@.galleries, msg.channel_id);
                let n = msg.media().len();
                g is Some && n > 0 ==> if old(self)@.room_for(n) {
                    r is Ok && final(self)@ == old(self)@.inserted(g->Some_0.pk, msg.id, msg.media(), now)
                } else {
                    r == Err::<(), StoreError>(StoreError::Storage) && final(self)@ == old(self)@
                }
            }),
    {
        if !has_media_candidates(msg) {
            return Ok(());
        }
        let gallery = self.find_by_channel_id(msg.channel_id);
        match plan_new_message(msg, &gallery) {
            None => Ok(()),
            Some(batch) => {
                proof {
                    lemma_found_gallery_stored(self@, msg.channel_id);
                }
                self.insert_batch(&batch, now)
            },
        }
    }

    /// Replaces the posts of an edited message by those its new content
    /// yields, stamped `now`.
    ///
    /// An edit in a channel without a gallery writes nothing. Otherwise every
    /// post of the message is deleted and the new batch inserted, as one
    /// transaction: a store error leaves the store as it was.
    pub fn handle_message_update(&mut self, ev: &MessageEdited, now: i64) -> (r: Result<(), StoreError>)
        requires
            old(self).wf(),
        ensures
            final(self).wf(),
            gallery_of_channel(old(self)@.galleries, ev.channel_id) is None ==> r is Ok
                && final(self)@ == old(self)@,
            ({
                let g = gallery_of_channel(old(self)@.galleries, ev.channel_id);
                g is Some ==> if old(self)@.room_for(ev.media().len()) {
                    r is Ok && final(self)@ == old(self)@.replaced(g->Some_0.pk, ev.id, ev.media(), now)
                } else {
                    r == Err::<(), StoreError>(StoreError::Storage) && final(self)@ == old(self)@
                }
            }),
    {
        let gallery = self.find_by_channel_id(ev.channel_id);
        match plan_message_update(ev, &gallery) {
            None => Ok(()),
            Some(batch) => {
                proof {
                    lemma_found_gallery_stored(self@, ev.channel_id);
                }
                self.replace_batch(&batch, now)
            },
        }
    }
}

/// After an edit of message `m` that yields `refs`, the message has exactly
/// one post per reference, in order, and none of them has the key of a post
/// the message had before: the old posts were deleted, not updated.
pub proof fn lemma_edit_replaces_posts(
    v: StoreView,
    gallery: u128,
    m: u64,
    refs: Seq<MediaReference>,
    now: i64,
)
    requires
        v.wf(),
        v.room_for(refs.len()),
    ensures
        posts_of_message(v.replaced(gallery, m, refs, now).posts, m) == new_rows(gallery, m, refs, v.next_pk, now),
        posts_of_message(v.replaced(gallery, m, refs, now).posts, m).len() == refs.len(),
        forall|i: int, j: int|
            0 <= i < posts_of_message(v.posts, m).len() && 0 <= j < refs.len() ==> (#[trigger] posts_of_message(
                v.posts,
                m,
            )[i]).pk != (#[trigger] posts_of_message(v.replaced(gallery, m, refs, now).posts, m)[j]).pk,
{
    let rows = new_rows(gallery, m, refs, v.next_pk, now);
    lemma_posts_where_concat(without_message(v.posts, m), rows, m, true);
    lemma_without_message_leaves_none(v.posts, m);
    lemma_posts_of_message_all(rows, m);
    assert(Seq::<GalleryPost>::empty() + rows =~= rows);
    lemma_posts_where_sub(v.posts, m, true);
    assert forall|i: int, j: int|
        0 <= i < posts_of_message(v.posts, m).len() && 0 <= j < refs.len() implies (#[trigger] posts_of_message(
            v.posts,
            m,
        )[i]).pk != (#[trigger] posts_of_message(v.replaced(gallery, m, refs, now).posts, m)[j]).pk by {
        let p = posts_of_message(v.posts, m)[i];
        assert(v.posts.contains(p));
        let k = choose|k: int| 0 <= k < v.posts.len() && v.posts[k] == p;
        assert(v.posts[k].pk < v.next_pk);
        assert(rows[j].pk == v.next_pk + j);
    }
}

} // verus!

use vstd::prelude::*;

use crate::media::MediaReference;

verus! {

/// A gallery bound to one chat channel.
#[derive(Debug, PartialEq, Eq)]
pub struct Gallery {
    pub pk: u128,
    pub name: String,
    pub channel_id: u64,
    /// Creation time, in seconds since the Unix epoch.
    pub date_created: i64,
}

impl Gallery {
    /// A field-by-field copy.
    pub fn duplicate(&self) -> (r: Gallery)
        ensures
            r == *self,
    {
        Gallery {
            pk: self.pk,
            name: self.name.clone(),
            channel_id: self.channel_id,
            date_created: self.date_created,
        }
    }
}

/// One stored media reference, tied to a gallery and to the message it came from.
#[derive(Debug, PartialEq, Eq)]
pub struct GalleryPost {
    pub pk: u128,
    pub gallery: u128,
    pub message_id: u64,
    pub media: MediaReference,
    /// Creation time, in seconds since the Unix epoch.
    pub date_created: i64,
}

impl GalleryPost {
    /// A field-by-field copy.
    pub fn duplicate(&self) -> (r: GalleryPost)
        ensures
            r == *self,
    {
        GalleryPost {
            pk: self.pk,
            gallery: self.gallery,
            message_id: self.message_id,
            media: self.media.duplicate(),
            date_created: self.date_created,
        }
    }
}

/// The references of one message, bound for one gallery.
#[derive(Debug, PartialEq, Eq)]
pub struct PostBatch {
    pub gallery: u128,
    pub message_id: u64,
    pub posts: Vec<MediaReference>,
}

/// Why a write to the store was refused.
#[derive(PartialEq, Eq, Structural, Clone, Copy, Debug)]
pub enum StoreError {
    /// The channel already has a gallery.
    Conflict,
    /// The gallery that the posts name does not exist.
    NotFound,
    /// The store could not complete the write.
    Storage,
}

/// The posts of `s` whose message is `m` (when `keep`) or is not `m` (otherwise), in order.
pub open spec fn posts_where(s: Seq<GalleryPost>, m: u64, keep: bool) -> Seq<GalleryPost>
    decreases s.len(),
{
    if s.len() == 0 {
        Seq::empty()
    } else if (s.last().message_id == m) == keep {
        posts_where(s.drop_last(), m, keep).push(s.last())
    } else {
        posts_where(s.drop_last(), m, keep)
    }
}

/// The posts that came from message `m`, in order.
pub open spec fn posts_of_message(s: Seq<GalleryPost>, m: u64) -> Seq<GalleryPost> {
    posts_where(s, m, true)
}

/// The posts that did not come from message `m`, in order.
pub open spec fn without_message(s: Seq<GalleryPost>, m: u64) -> Seq<GalleryPost> {
    posts_where(s, m, false)
}

/// The posts of gallery `g`, in order.
pub open spec fn posts_in_gallery(s: Seq<GalleryPost>, g: u128) -> Seq<GalleryPost>
    decreases s.len(),
{
    if s.len() == 0 {
        Seq::empty()
    } else if s.last().gallery == g {
        posts_in_gallery(s.drop_last(), g).push(s.last())
    } else {
        posts_in_gallery(s.drop_last(), g)
    }
}

/// The rows that a batch becomes, numbered from `first` and stamped `now`.
pub open spec fn new_rows(
    gallery: u128,
    message_id: u64,
    refs: Seq<MediaReference>,
    first: nat,
    now: i64,
) -> Seq<GalleryPost> {
    Seq::new(
        refs.len(),
        |k: int|
            GalleryPost {
                pk: (first + k) as u128,
                gallery,
                message_id,
                media: refs[k],
                date_created: now,
            },
    )
}

/// The gallery bound to channel `c`, if any.
pub open spec fn gallery_of_channel(gs: Seq<Gallery>, c: u64) -> Option<Gallery> {
    if exists|j: int| 0 <= j < gs.len() && gs[j].channel_id == c {
        Some(gs[choose|j: int| 0 <= j < gs.len() && gs[j].channel_id == c])
    } else {
        None
    }
}

/// Primary keys rise strictly along the sequence.
pub open spec fn post_pks_rise(s: Seq<GalleryPost>) -> bool {
    forall|i: int, j: int| 0 <= i < j < s.len() ==> s[i].pk < s[j].pk
}

/// What creating a gallery for channel `c` under `name` at time `now`
/// returns, and the store it leaves.
pub open spec fn create_outcome(v: StoreView, c: u64, name: String, now: i64) -> (
    Result<Gallery, StoreError>,
    StoreView,
) {
    if gallery_of_channel(v.galleries, c) is Some {
        (Err(StoreError::Conflict), v)
    } else if !v.room_for(1) {
        (Err(StoreError::Storage), v)
    } else {
        (Ok(v.fresh_gallery(c, name, now)), v.admitted(c, name, now))
    }
}

/// Exactly one gallery of `gs` is bound to channel `c`.
pub open spec fn one_gallery_for(gs: Seq<Gallery>, c: u64) -> bool {
    exists|i: int|
        0 <= i < gs.len() && gs[i].channel_id == c && forall|j: int|
            0 <= j < gs.len() && #[trigger] gs[j].channel_id == c ==> j == i
}

/// Two creations of a gallery for a channel that has none: the first
/// succeeds, the second fails with `Conflict` and leaves the store as the
/// first left it, with exactly one gallery for the channel.
pub proof fn lemma_one_gallery_per_channel(
    v: StoreView,
    c: u64,
    first: String,
    second: String,
    t1: i64,
    t2: i64,
)
    requires
        v.wf(),
        gallery_of_channel(v.galleries, c) is None,
        v.room_for(1),
    ensures
        create_outcome(v, c, first, t1).0 is Ok,
        create_outcome(create_outcome(v, c, first, t1).1, c, second, t2) == (
            Err::<Gallery, StoreError>(StoreError::Conflict),
            create_outcome(v, c, first, t1).1,
        ),
        one_gallery_for(create_outcome(v, c, first, t1).1.galleries, c),
{
    let gs = create_outcome(v, c, first, t1).1.galleries;
    let n = v.galleries.len() as int;
    assert(gs[n].channel_id == c);
    assert forall|j: int| 0 <= j < gs.len() && #[trigger] gs[j].channel_id == c implies j == n by {
        if j < n {
            assert(gs[j] == v.galleries[j]);
        }
    }
}

/// The contents of a gallery store.
pub struct StoreView {
    pub galleries: Seq<Gallery>,
    pub posts: Seq<GalleryPost>,
    /// The next identity to hand out; every stored key lies below it.
    pub next_pk: nat,
}

impl StoreView {
    /// A gallery with key `pk` is stored.
    pub open spec fn has_gallery(self, pk: u128) -> bool {
        exists|j: int| 0 <= j < self.galleries.len() && self.galleries[j].pk == pk
    }

    /// `n` more identities can be handed out.
    pub open spec fn room_for(self, n: nat) -> bool {
        self.next_pk + n <= u128::MAX
    }

    /// The schema's constraints: one gallery per channel, unique keys, and
    /// every post in an existing gallery.
    pub open spec fn wf(self) -> bool {
        &&& self.next_pk <= u128::MAX
        &&& forall|i: int, j: int|
            0 <= i < j < self.galleries.len() ==> self.galleries[i].channel_id
                != self.galleries[j].channel_id && self.galleries[i].pk < self.galleries[j].pk
        &&& forall|i: int| 0 <= i < self.galleries.len() ==> self.galleries[i].pk < self.next_pk
        &&& post_pks_rise(self.posts)
        &&& forall|i: int| 0 <= i < self.posts.len() ==> self.posts[i].pk < self.next_pk
        &&& forall|i: int| 0 <= i < self.posts.len() ==> self.has_gallery(#[trigger] self.posts[i].gallery)
    }

    /// The gallery that admitting channel `c` under `name` at time `now` creates.
    pub open spec fn fresh_gallery(self, c: u64, name: String, now: i64) -> Gallery {
        Gallery { pk: self.next_pk as u128, name, channel_id: c, date_created: now }
    }

    /// The store once a gallery for channel `c` is added.
    pub open spec fn admitted(self, c: u64, name: String, now: i64) -> StoreView {
        StoreView {
            galleries: self.galleries.push(self.fresh_gallery(c, name, now)),
            posts: self.posts,
            next_pk: self.next_pk + 1,
        }
    }

    /// The store once a batch is appended.
    pub open spec fn inserted(self, gallery: u128, m: u64, refs: Seq<MediaReference>, now: i64) -> StoreView {
        StoreView {
            galleries: self.galleries,
            posts: self.posts + new_rows(gallery, m, refs, self.next_pk, now),
            next_pk: self.next_pk + refs.len(),
        }
    }

    /// The store once every post of message `m` is deleted and a batch is appended.
    pub open spec fn replaced(self, gallery: u128, m: u64, refs: Seq<MediaReference>, now: i64) -> StoreView {
        StoreView {
            galleries: self.galleries,
            posts: without_message(self.posts, m) + new_rows(gallery, m, refs, self.next_pk, now),
            next_pk: self.next_pk + refs.len(),
        }
    }
}

/// A filter keeps only posts of the sequence, and keeps rising keys rising.
pub(crate) proof fn lemma_posts_where_sub(s: Seq<GalleryPost>, m: u64, keep: bool)
    ensures
        forall|k: int|
            0 <= k < posts_where(s, m, keep).len() ==> s.contains(#[trigger] posts_where(s, m, keep)[k]),
        post_pks_rise(s) ==> post_pks_rise(posts_where(s, m, keep)),
    decreases s.len(),
{
    if s.len() > 0 {
        let t = s.drop_last();
        let f = posts_where(s, m, keep);
        let ft = posts_where(t, m, keep);
        lemma_posts_where_sub(t, m, keep);
        assert forall|k: int| 0 <= k < f.len() implies s.contains(#[trigger] f[k]) by {
            if k < ft.len() {
                assert(t.contains(ft[k]));
                let j = choose|j: int| 0 <= j < t.len() && t[j] == ft[k];
                assert(s[j] == f[k]);
            } else {
                assert(s[s.len() - 1] == f[k]);
            }
        }
        if post_pks_rise(s) {
            assert(post_pks_rise(t));
            assert forall|a: int, b: int| 0 <= a < b < f.len() implies f[a].pk < f[b].pk by {
                if b == ft.len() {
                    assert(t.contains(ft[a]));
                    let j = choose|j: int| 0 <= j < t.len() && t[j] == ft[a];
                    assert(f[a] == t[j]);
                } else {
                    assert(f[a] == ft[a] && f[b] == ft[b]);
                }
            }
        }
    }
}

/// Filtering a concatenation filters each part.
pub(crate) proof fn lemma_posts_where_concat(a: Seq<GalleryPost>, b: Seq<GalleryPost>, m: u64, keep: bool)
    ensures
        posts_where(a + b, m, keep) == posts_where(a, m, keep) + posts_where(b, m, keep),
    decreases b.len(),
{
    if b.len() == 0 {
        assert(a + b =~= a);
        assert(posts_where(a, m, keep) + posts_where(b, m, keep) =~= posts_where(a, m, keep));
    } else {
        lemma_posts_where_concat(a, b.drop_last(), m, keep);
        assert((a + b).drop_last() =~= a + b.drop_last());
        assert((a + b).last() == b.last());
        if (b.last().message_id == m) == keep {
            assert(posts_where(a, m, keep) + posts_where(b, m, keep) =~= (posts_where(a, m, keep)
                + posts_where(b.drop_last(), m, keep)).push(b.last()));
        }
    }
}

/// Once the posts of message `m` are taken out, none of them is left.
pub(crate) proof fn lemma_without_message_leaves_none(s: Seq<GalleryPost>, m: u64)
    ensures
        posts_of_message(without_message(s, m), m) == Seq::<GalleryPost>::empty(),
    decreases s.len(),
{
    if s.len() > 0 {
        lemma_without_message_leaves_none(s.drop_last(), m);
        let w = without_message(s.drop_last(), m);
        if s.last().message_id != m {
            assert(w.push(s.last()).drop_last() =~= w);
        }
    }
}

/// Posts that all came from message `m` are all kept by its filter.
pub(crate) proof fn lemma_posts_of_message_all(s: Seq<GalleryPost>, m: u64)
    requires
        forall|k: int| 0 <= k < s.len() ==> (#[trigger] s[k]).message_id == m,
    ensures
        posts_of_message(s, m) == s,
    decreases s.len(),
{
    if s.len() > 0 {
        lemma_posts_of_message_all(s.drop_last(), m);
        assert(s.drop_last().push(s.last()) =~= s);
    }
}

/// Appending a batch's rows to posts taken from a well-formed store keeps the
/// schema's constraints.
proof fn lemma_append_rows_wf(
    v: StoreView,
    kept: Seq<GalleryPost>,
    gallery: u128,
    m: u64,
    refs: Seq<MediaReference>,
    now: i64,
)
    requires
        v.wf(),
        v.has_gallery(gallery),
        v.room_for(refs.len()),
        post_pks_rise(kept),
        forall|k: int| 0 <= k < kept.len() ==> v.posts.contains(#[trigger] kept[k]),
    ensures
        (StoreView {
            galleries: v.galleries,
            posts: kept + new_rows(gallery, m, refs, v.next_pk, now),
            next_pk: v.next_pk + refs.len(),
        }).wf(),
{
    let rows = new_rows(gallery, m, refs, v.next_pk, now);
    let after = StoreView { galleries: v.galleries, posts: kept + rows, next_pk: v.next_pk + refs.len() };
    let n = kept.len() as int;
    assert forall|k: int| 0 <= k < n implies kept[k].pk < v.next_pk && v.has_gallery(#[trigger] kept[k].gallery) by {
        assert(v.posts.contains(kept[k]));
        let j = choose|j: int| 0 <= j < v.posts.len() && v.posts[j] == kept[k];
        assert(v.posts[j].pk < v.next_pk);
        assert(v.has_gallery(v.posts[j].gallery));
    }
    assert forall|a: int, b: int| 0 <= a < b < after.posts.len() implies after.posts[a].pk < after.posts[b].pk by {
        if b < n {
            assert(after.posts[a] == kept[a] && after.posts[b] == kept[b]);
        } else if a < n {
            assert(after.posts[a] == kept[a]);
            assert(kept[a].pk < v.next_pk && v.has_gallery(kept[a].gallery));
            assert(after.posts[b] == rows[b - n]);
        } else {
            assert(after.posts[a] == rows[a - n] && after.posts[b] == rows[b - n]);
        }
    }
    assert forall|i: int| 0 <= i < after.posts.len() implies after.posts[i].pk < after.next_pk by {
        if i < n {
            assert(after.posts[i] == kept[i]);
            assert(kept[i].pk < v.next_pk && v.has_gallery(kept[i].gallery));
        } else {
            assert(after.posts[i] == rows[i - n]);
        }
    }
    assert forall|i: int| 0 <= i < after.posts.len() implies after.has_gallery(#[trigger] after.posts[i].gallery) by {
        let g = after.posts[i].gallery;
        if i < n {
            assert(after.posts[i] == kept[i]);
            assert(kept[i].pk < v.next_pk && v.has_gallery(kept[i].gallery));
        } else {
            assert(after.posts[i] == rows[i - n]);
        }
        assert(v.has_gallery(g));
        let j = choose|j: int| 0 <= j < v.galleries.len() && v.galleries[j].pk == g;
        assert(after.galleries[j].pk == g);
    }
}

/// An in-memory gallery directory and post store.
///
/// Keys are handed out in rising order and never reused, so rows written
/// later have keys that no earlier row had.
pub struct GalleryStore {
    galleries: Vec<Gallery>,
    posts: Vec<GalleryPost>,
    next_pk: u128,
}

impl View for GalleryStore {
    type V = StoreView;

    closed spec fn view(&self) -> StoreView {
        StoreView { galleries: self.galleries@, posts: self.posts@, next_pk: self.next_pk as nat }
    }
}

impl GalleryStore {
    /// The store meets the schema's constraints.
    pub open spec fn wf(&self) -> bool {
        self@.wf()
    }

    /// An empty store.
    pub fn new() -> (r: GalleryStore)
        ensures
            r.wf(),
            r@.galleries == Seq::<Gallery>::empty(),
            r@.posts == Seq::<GalleryPost>::empty(),
            r@.next_pk == 1,
    {
        GalleryStore { galleries: Vec::new(), posts: Vec::new(), next_pk: 1 }
    }

    /// The number of galleries.
    pub fn gallery_count(&self) -> (r: usize)
        ensures
            r == self@.galleries.len(),
    {
        self.galleries.len()
    }

    /// The number of posts.
    pub fn post_count(&self) -> (r: usize)
        ensures
            r == self@.posts.len(),
    {
        self.posts.len()
    }

    /// The gallery bound to a channel, if any.
    pub fn find_by_channel_id(&self, channel_id: u64) -> (r: Option<Gallery>)
        requires
            self.wf(),
        ensures
            r == gallery_of_channel(self@.galleries, channel_id),
    {
        let mut i: usize = 0;
        while i < self.galleries.len()
            invariant
                self.wf(),
                i <= self.galleries@.len(),
                forall|j: int| 0 <= j < i ==> self.galleries@[j].channel_id != channel_id,
            decreases self.galleries@.len() - i,
        {
            if self.galleries[i].channel_id == channel_id {
                let ghost gs = self.galleries@;
                proof {
                    let c = choose|j: int| 0 <= j < gs.len() && gs[j].channel_id == channel_id;
                    assert(c == i as int) by {
                        if c < i {
                        } else if c > i {
                            assert(self@.galleries[i as int].channel_id != self@.galleries[c].channel_id);
                        }
                    }
                }
                return Some(self.galleries[i].duplicate());
            }
            i = i + 1;
        }
        None
    }

    fn contains_gallery(&self, pk: u128) -> (r: bool)
        ensures
            r == self@.has_gallery(pk),
    {
        let mut i: usize = 0;
        while i < self.galleries.len()
            invariant
                i <= self.galleries@.len(),
                forall|j: int| 0 <= j < i ==> self.galleries@[j].pk != pk,
            decreases self.galleries@.len() - i,
        {
            if self.galleries[i].pk == pk {
                assert(self@.galleries[i as int].pk == pk);
                return true;
            }
            i = i + 1;
        }
        false
    }

    /// Adds a gallery for a channel that has none.
    ///
    /// A channel that already has a gallery gives `Conflict`; when the store
    /// has no identity left to hand out it gives `Storage`. Either way the
    /// store is left as it was.
    pub fn create_gallery(&mut self, channel_id: u64, name: String, now: i64) -> (r: Result<
        Gallery,
        StoreError,
    >)
        requires
            old(self).wf(),
        ensures
            final(self).wf(),
            (r, final(self)@) == create_outcome(old(self)@, channel_id, name, now),
    {
        if self.find_by_channel_id(channel_id).is_some() {
            return Err(StoreError::Conflict);
        }
        if self.next_pk == u128::MAX {
            return Err(StoreError::Storage);
        }
        let ghost before = self@;
        let g = Gallery { pk: self.next_pk, name, channel_id, date_created: now };
        let copy = g.duplicate();
        self.galleries.push(g);
        self.next_pk = self.next_pk + 1;
        proof {
            assert(forall|j: int| 0 <= j < before.galleries.len() ==> before.galleries[j].channel_id != channel_id);
            assert forall|i: int| 0 <= i < self@.posts.len() implies self@.has_gallery(#[trigger] self@.posts[i].gallery) by {
                let j = choose|j: int| 0 <= j < before.galleries.len() && before.galleries[j].pk == before.posts[i].gallery;
                assert(self@.galleries[j] == before.galleries[j]);
            }
            assert(self@ == before.admitted(channel_id, copy.name, now));
            let after = self@;
            let n = before.galleries.len() as int;
            assert forall|i: int, j: int| 0 <= i < j < after.galleries.len() implies after.galleries[i].channel_id
                != after.galleries[j].channel_id && after.galleries[i].pk < after.galleries[j].pk by {
                if j == n {
                    assert(after.galleries[i] == before.galleries[i]);
                } else {
                    assert(after.galleries[i] == before.galleries[i]);
                    assert(after.galleries[j] == before.galleries[j]);
                }
            }
            assert forall|i: int| 0 <= i < after.galleries.len() implies after.galleries[i].pk < after.next_pk by {
                if i < n {
                    assert(after.galleries[i] == before.galleries[i]);
                }
            }

        }
        Ok(copy)
    }

    /// The rows that a batch becomes, numbered from the next free identity.
    fn rows_for(&self, batch: &PostBatch, now: i64) -> (r: Vec<GalleryPost>)
        requires
            self@.room_for(batch.posts@.len()),
        ensures
            r@ == new_rows(batch.gallery, batch.message_id, batch.posts@, self@.next_pk, now),
    {
        let mut out: Vec<GalleryPost> = Vec::new();
        let mut k: usize = 0;
        while k < batch.posts.len()
            invariant
                k <= batch.posts@.len(),
                self@.room_for(batch.posts@.len()),
                out@ =~= new_rows(batch.gallery, batch.message_id, batch.posts@, self@.next_pk, now).subrange(
                    0,
                    k as int,
                ),
            decreases batch.posts@.len() - k,
        {
            out.push(
                GalleryPost {
                    pk: self.next_pk + k as u128,
                    gallery: batch.gallery,
                    message_id: batch.message_id,
                    media: batch.posts[k].duplicate(),
                    date_created: now,
                },
            );
            k = k + 1;
        }
        out
    }

    /// The posts whose message is not `m`, in order.
    fn posts_without(&self, m: u64) -> (r: Vec<GalleryPost>)
        ensures
            r@ == without_message(self@.posts, m),
    {
        let mut out: Vec<GalleryPost> = Vec::new();
        let mut i: usize = 0;
        while i < self.posts.len()
            invariant
                i <= self.posts@.len(),
                out@ == without_message(self.posts@.subrange(0, i as int), m),
            decreases self.posts@.len() - i,
        {
            assert(self.posts@.subrange(0, i + 1).drop_last() =~= self.posts@.subrange(0, i as int));
            if self.posts[i].message_id != m {
                out.push(self.posts[i].duplicate());
            }
            i = i + 1;
        }
        assert(self.posts@.subrange(0, self.posts@.len() as int) =~= self.posts@);
        out
    }

    /// Stores a batch in one multi-row insert.
    ///
    /// A batch for a gallery that does not exist gives `NotFound`; when the
    /// store has too few identities left it gives `Storage`. Either way the
    /// store is left as it was.
    pub fn insert_batch(&mut self, batch: &PostBatch, now: i64) -> (r: Result<(), StoreError>)
        requires
            old(self).wf(),
        ensures
            final(self).wf(),
            !old(self)@.has_gallery(batch.gallery) ==> r == Err::<(), StoreError>(StoreError::NotFound)
                && final(self)@ == old(self)@,
            old(self)@.has_gallery(batch.gallery) && !old(self)@.room_for(batch.posts@.len())
                ==> r == Err::<(), StoreError>(StoreError::Storage) && final(self)@ == old(self)@,
            old(self)@.has_gallery(batch.gallery) && old(self)@.room_for(batch.posts@.len())
                ==> r == Ok::<(), StoreError>(()) && final(self)@ == old(self)@.inserted(
                batch.gallery,
                batch.message_id,
                batch.posts@,
                now,
            ),
    {
        if !self.contains_gallery(batch.gallery) {
            return Err(StoreError::NotFound);
        }
        if batch.posts.len() as u128 > u128::MAX - self.next_pk {
            return Err(StoreError::Storage);
        }
        let ghost before = self@;
        let mut rows = self.rows_for(batch, now);
        self.posts.append(&mut rows);
        self.next_pk = self.next_pk + batch.posts.len() as u128;
        proof {
            assert forall|k: int| 0 <= k < before.posts.len() implies before.posts.contains(#[trigger] before.posts[k]) by {
                assert(before.posts[k] == before.posts[k]);
            }
            lemma_append_rows_wf(before, before.posts, batch.gallery, batch.message_id, batch.posts@, now);
            assert(self@ == before.inserted(batch.gallery, batch.message_id, batch.posts@, now));
        }
        Ok(())
    }

    /// Replaces, as one transaction, every post of the batch's message with
    /// the batch's rows; an empty batch only deletes.
    ///
    /// The errors are those of `insert_batch`, and on an error nothing is
    /// deleted: the store is left as it was.
    pub fn replace_batch(&mut self, batch: &PostBatch, now: i64) -> (r: Result<(), StoreError>)
        requires
            old(self).wf(),
        ensures
            final(self).wf(),
            !old(self)@.has_gallery(batch.gallery) ==> r == Err::<(), StoreError>(StoreError::NotFound)
                && final(self)@ == old(self)@,
            old(self)@.has_gallery(batch.gallery) && !old(self)@.room_for(batch.posts@.len())
                ==> r == Err::<(), StoreError>(StoreError::Storage) && final(self)@ == old(self)@,
            old(self)@.has_gallery(batch.gallery) && old(self)@.room_for(batch.posts@.len())
                ==> r == Ok::<(), StoreError>(()) && final(self)@ == old(self)@.replaced(
                batch.gallery,
                batch.message_id,
                batch.posts@,
                now,
            ),
    {
        if !self.contains_gallery(batch.gallery) {
            return Err(StoreError::NotFound);
        }
        if batch.posts.len() as u128 > u128::MAX - self.next_pk {
            return Err(StoreError::Storage);
        }
        let ghost before = self@;
        let mut kept = self.posts_without(batch.message_id);
        let mut rows = self.rows_for(batch, now);
        kept.append(&mut rows);
        self.posts = kept;
        self.next_pk = self.next_pk + batch.posts.len() as u128;
        proof {
            lemma_posts_where_sub(before.posts, batch.message_id, false);
            lemma_append_rows_wf(
                before,
                without_message(before.posts, batch.message_id),
                batch.gallery,
                batch.message_id,
                batch.posts@,
                now,
            );
            assert(self@ == before.replaced(batch.gallery, batch.message_id, batch.posts@, now));
        }
        Ok(())
    }

    /// The posts that came from message `m`, in order.
    pub fn posts_for_message(&self, m: u64) -> (r: Vec<GalleryPost>)
        ensures
            r@ == posts_of_message(self@.posts, m),
    {
        let mut out: Vec<GalleryPost> = Vec::new();
        let mut i: usize = 0;
        while i < self.posts.len()
            invariant
                i <= self.posts@.len(),
                out@ == posts_of_message(self.posts@.subrange(0, i as int), m),
            decreases self.posts@.len() - i,
        {
            assert(self.posts@.subrange(0, i + 1).drop_last() =~= self.posts@.subrange(0, i as int));
            if self.posts[i].message_id == m {
                out.push(self.posts[i].duplicate());
            }
            i = i + 1;
        }
        assert(self.posts@.subrange(0, self.posts@.len() as int) =~= self.posts@);
        out
    }

    /// The posts of a gallery, in the order they were stored.
    pub fn posts_of_gallery(&self, gallery: u128) -> (r: Vec<GalleryPost>)
        ensures
            r@ == posts_in_gallery(self@.posts, gallery),
    {
        let mut out: Vec<GalleryPost> = Vec::new();
        let mut i: usize = 0;
        while i < self.posts.len()
            invariant
                i <= self.posts@.len(),
                out@ == posts_in_gallery(self.posts@.subrange(0, i as int), gallery),
            decreases self.posts@.len() - i,
        {
            assert(self.posts@.subrange(0, i + 1).drop_last() =~= self.posts@.subrange(0, i as int));
            if self.posts[i].gallery == gallery {
                out.push(self.posts[i].duplicate());
            }
            i = i + 1;
        }
        assert(self.posts@.subrange(0, self.posts@.len() as int) =~= self.posts@);
        out
    }
}

} // verus!

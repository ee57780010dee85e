//! The catalog of tracks that were already seen.
//!
//! A track is in the catalog once it was posted to Discord, or once it was
//! recorded without a post (at bulk initialization, or when an older catalog
//! file was taken over). The catalog keeps the identifiers in the order in
//! which they were first recorded.

use crate::text::same_text;
use vstd::hash_map::StringHashMap;
use vstd::prelude::*;

verus! {

/// Where a track was posted.
#[derive(Debug)]
pub struct DiscordMessage {
    /// The identifier that Discord gave to the message.
    pub id: String,
    /// The channel of the message, where Discord returned it.
    pub channel_id: Option<String>,
    /// The SoundCloud user in whose polling cycle the track was posted.
    pub user_id: Option<String>,
}

/// The mathematical value of a `DiscordMessage`.
pub struct PostView {
    pub id: Seq<char>,
    pub channel_id: Option<Seq<char>>,
    pub user_id: Option<Seq<char>>,
}

/// The characters of an optional string.
pub open spec fn opt_text(s: Option<String>) -> Option<Seq<char>> {
    match s {
        Some(t) => Some(t@),
        None => None,
    }
}

/// A copy of an optional string.
pub fn clone_opt(s: &Option<String>) -> (r: Option<String>)
    ensures
        opt_text(r) == opt_text(*s),
{
    match s {
        Some(t) => Some(t.clone()),
        None => None,
    }
}

impl View for DiscordMessage {
    type V = PostView;

    open spec fn view(&self) -> PostView {
        PostView {
            id: self.id@,
            channel_id: opt_text(self.channel_id),
            user_id: opt_text(self.user_id),
        }
    }
}

impl Clone for DiscordMessage {
    fn clone(&self) -> (r: Self)
        ensures
            r@ == self@,
    {
        DiscordMessage {
            id: self.id.clone(),
            channel_id: clone_opt(&self.channel_id),
            user_id: clone_opt(&self.user_id),
        }
    }
}

/// What the catalog holds for a track: its post, or nothing.
pub open spec fn slot_view(slot: Option<DiscordMessage>) -> Option<PostView> {
    match slot {
        Some(post) => Some(post@),
        None => None,
    }
}

/// The mathematical value of a catalog: the identifiers in the order in which
/// they were first recorded, and what is held for each.
pub struct CatalogView {
    pub ids: Seq<Seq<char>>,
    pub posts: Map<Seq<char>, Option<PostView>>,
}

/// Those of `ids` that are not in `known`: each of them once, in the order
/// in which they first occur.
pub open spec fn unseen(known: Set<Seq<char>>, ids: Seq<Seq<char>>) -> Seq<Seq<char>>
    decreases ids.len(),
{
    if ids.len() == 0 {
        Seq::empty()
    } else {
        let before = unseen(known, ids.drop_last());
        if known.contains(ids.last()) || before.contains(ids.last()) {
            before
        } else {
            before.push(ids.last())
        }
    }
}

impl CatalogView {
    /// The catalog without any track.
    pub open spec fn empty() -> CatalogView {
        CatalogView { ids: Seq::empty(), posts: Map::empty() }
    }

    /// Whether the identifiers are exactly the tracks held, each once.
    pub open spec fn wf(self) -> bool {
        &&& self.ids.no_duplicates()
        &&& forall|id: Seq<char>| self.posts.contains_key(id) <==> self.ids.contains(id)
    }

    /// Whether the track is in the catalog.
    pub open spec fn has(self, id: Seq<char>) -> bool {
        self.posts.contains_key(id)
    }

    /// The post of a track, if the catalog holds one for it.
    pub open spec fn post_of(self, id: Seq<char>) -> Option<PostView> {
        if self.posts.contains_key(id) {
            self.posts[id]
        } else {
            None
        }
    }

    /// The catalog after `id` was recorded with `slot`, which replaces what
    /// was held for it.
    pub open spec fn put(self, id: Seq<char>, slot: Option<PostView>) -> CatalogView {
        CatalogView {
            ids: if self.posts.contains_key(id) {
                self.ids
            } else {
                self.ids.push(id)
            },
            posts: self.posts.insert(id, slot),
        }
    }

    /// The catalog after each of `ids` was recorded without a post, in order.
    pub open spec fn put_all_unposted(self, ids: Seq<Seq<char>>) -> CatalogView
        decreases ids.len(),
    {
        if ids.len() == 0 {
            self
        } else {
            self.put_all_unposted(ids.drop_last()).put(ids.last(), None)
        }
    }

    /// Whether the track at position `i` has a post with message `message_id`.
    pub open spec fn posted_as(self, i: int, message_id: Seq<char>) -> bool {
        &&& 0 <= i < self.ids.len()
        &&& self.post_of(self.ids[i]) matches Some(post)
        &&& post.id == message_id
    }

    /// Whether the track at position `i` has a post made for user `user_id`.
    pub open spec fn posted_for(self, i: int, user_id: Seq<char>) -> bool {
        &&& 0 <= i < self.ids.len()
        &&& self.post_of(self.ids[i]) matches Some(post)
        &&& post.user_id == Some(user_id)
    }

    /// The tracks among the first `n` that were posted for `user_id`, in order.
    pub open spec fn tracks_of_user(self, user_id: Seq<char>, n: int) -> Seq<Seq<char>>
        decreases n,
    {
        if n <= 0 {
            Seq::empty()
        } else if self.posted_for(n - 1, user_id) {
            self.tracks_of_user(user_id, n - 1).push(self.ids[n - 1])
        } else {
            self.tracks_of_user(user_id, n - 1)
        }
    }

    /// The message identifiers of the posts among the first `n` tracks, in
    /// order.
    pub open spec fn message_ids(self, n: int) -> Seq<Seq<char>>
        decreases n,
    {
        if n <= 0 {
            Seq::empty()
        } else {
            match self.post_of(self.ids[n - 1]) {
                Some(post) if n <= self.ids.len() => self.message_ids(n - 1).push(post.id),
                _ => self.message_ids(n - 1),
            }
        }
    }
}

/// The tracks that were already seen, with the post of each that has one.
pub struct TrackDatabase {
    index: StringHashMap<Option<DiscordMessage>>,
    order: Vec<String>,
    /// The path of the catalog file.
    pub db_path: String,
}

impl View for TrackDatabase {
    type V = CatalogView;

    closed spec fn view(&self) -> CatalogView {
        CatalogView {
            ids: self.order.deep_view(),
            posts: Map::new(
                |id: Seq<char>| self.index@.contains_key(id),
                |id: Seq<char>| slot_view(self.index@[id]),
            ),
        }
    }
}

impl TrackDatabase {
    /// Whether the catalog is consistent. Every function here that returns a
    /// catalog returns a consistent one.
    pub open spec fn wf(&self) -> bool {
        self@.wf()
    }

    /// The path of the catalog file.
    pub closed spec fn path(&self) -> Seq<char> {
        self.db_path@
    }

    /// An empty catalog for the file at `db_path`.
    pub fn new(db_path: String) -> (db: Self)
        ensures
            db.wf(),
            db@ == CatalogView::empty(),
            db.path() == db_path@,
    {
        let db = TrackDatabase { index: StringHashMap::new(), order: Vec::new(), db_path };
        assert(db@.ids =~= Seq::empty());
        assert(db@.posts =~= Map::empty());
        db
    }

    /// Whether the track is in the catalog.
    pub fn has_track(&self, track_id: &str) -> (found: bool)
        ensures
            found == self@.has(track_id@),
    {
        self.index.contains_key(track_id)
    }

    /// The path of the catalog file.
    pub fn file_path(&self) -> (path: &str)
        ensures
            path@ == self.path(),
    {
        self.db_path.as_str()
    }

    /// How many tracks the catalog holds.
    pub fn len(&self) -> (n: usize)
        ensures
            n == self@.ids.len(),
    {
        self.order.len()
    }

    /// Every track of the catalog, in the order in which they were first
    /// recorded.
    pub fn get_all_tracks(&self) -> (tracks: Vec<String>)
        ensures
            tracks.deep_view() == self@.ids,
    {
        let mut tracks: Vec<String> = Vec::new();
        let mut i: usize = 0;
        while i < self.order.len()
            invariant
                i <= self.order@.len(),
                tracks@.len() == i,
                forall|k: int| 0 <= k < i ==> (#[trigger] tracks@[k])@ == self.order@[k]@,
            decreases self.order@.len() - i,
        {
            tracks.push(self.order[i].clone());
            i += 1;
        }
        assert(tracks.deep_view() =~= self@.ids);
        tracks
    }

    /// Those of `track_ids` that are not in the catalog: each of them once, in
    /// the order in which they first occur. The catalog is left as it is.
    pub fn unseen_tracks(&self, track_ids: &[String]) -> (fresh: Vec<String>)
        ensures
            fresh.deep_view() == unseen(self@.posts.dom(), track_ids.deep_view()),
    {
        let ghost all = track_ids.deep_view();
        let mut fresh: Vec<String> = Vec::new();
        let mut taken: StringHashMap<bool> = StringHashMap::new();
        let mut i: usize = 0;
        assert(fresh.deep_view() =~= Seq::empty());
        while i < track_ids.len()
            invariant
                i <= track_ids@.len(),
                all == track_ids.deep_view(),
                fresh.deep_view() == unseen(self@.posts.dom(), all.take(i as int)),
                forall|id: Seq<char>| taken@.contains_key(id) <==> fresh.deep_view().contains(id),
            decreases track_ids@.len() - i,
        {
            let ghost before = fresh.deep_view();
            let ghost id = track_ids@[i as int]@;
            assert(all.take(i + 1).drop_last() =~= all.take(i as int));
            assert(all.take(i + 1).last() == id);
            let known = self.has_track(track_ids[i].as_str());
            if !known && !taken.contains_key(track_ids[i].as_str()) {
                taken.insert(track_ids[i].clone(), true);
                fresh.push(track_ids[i].clone());
                proof {
                    let after = fresh.deep_view();
                    assert(after =~= before.push(id));
                    assert forall|k: Seq<char>| taken@.contains_key(k) <==> after.contains(k) by {
                        if after.contains(k) {
                            let j = choose|j: int| 0 <= j < after.len() && after[j] == k;
                            if j < before.len() {
                                assert(before[j] == k);
                                assert(before.contains(k));
                            }
                        }
                        if before.contains(k) {
                            let j = choose|j: int| 0 <= j < before.len() && before[j] == k;
                            assert(after[j] == k);
                        }
                        assert(after[before.len() as int] == id);
                    }
                }
            }
            i += 1;
        }
        assert(all.take(i as int) =~= all);
        fresh
    }

    /// Records those of `track_ids` that are not in the catalog, without a
    /// post, and returns them: each new track once, in the order in which
    /// they first occur. Nothing is written to the catalog file.
    pub fn add_tracks(&mut self, track_ids: &[String]) -> (added: Vec<String>)
        requires
            old(self).wf(),
        ensures
            final(self).wf(),
            final(self).path() == old(self).path(),
            added.deep_view() == unseen(old(self)@.posts.dom(), track_ids.deep_view()),
            final(self)@ == old(self)@.put_all_unposted(added.deep_view()),
            forall|id: Seq<char>|
                final(self)@.has(id) <==> old(self)@.has(id) || track_ids.deep_view().contains(id),
            forall|id: Seq<char>|
                old(self)@.has(id) ==> final(self)@.posts[id] == old(self)@.posts[id],
            forall|id: Seq<char>|
                final(self)@.has(id) && !old(self)@.has(id) ==> final(self)@.posts[id] is None,
    {
        let added = self.unseen_tracks(track_ids);
        self.put_all_unposted(&added);
        proof {
            lemma_unseen(old(self)@.posts.dom(), track_ids.deep_view());
            lemma_put_all_unposted(old(self)@, added.deep_view());
        }
        added
    }

    /// Records each of `track_ids` without a post, in order. A post that was
    /// held for one of them is dropped.
    pub(crate) fn put_all_unposted(&mut self, track_ids: &[String])
        requires
            old(self).wf(),
        ensures
            final(self).wf(),
            final(self).path() == old(self).path(),
            final(self)@ == old(self)@.put_all_unposted(track_ids.deep_view()),
    {
        let ghost all = track_ids.deep_view();
        let mut i: usize = 0;
        while i < track_ids.len()
            invariant
                i <= track_ids@.len(),
                all == track_ids.deep_view(),
                self.wf(),
                self.path() == old(self).path(),
                self@ == old(self)@.put_all_unposted(all.take(i as int)),
            decreases track_ids@.len() - i,
        {
            assert(all.take(i + 1).drop_last() =~= all.take(i as int));
            assert(all.take(i + 1).last() == track_ids@[i as int]@);
            self.put(track_ids[i].as_str(), None);
            i += 1;
        }
        assert(all.take(i as int) =~= all);
    }

    /// Records that `track_id` was posted as the message `discord_id`. A track
    /// that was already in the catalog gets the new post.
    pub fn add_track_with_discord_info(
        &mut self,
        track_id: &str,
        discord_id: String,
        channel_id: Option<String>,
        user_id: Option<String>,
    )
        requires
            old(self).wf(),
        ensures
            final(self).wf(),
            final(self).path() == old(self).path(),
            final(self)@ == old(self)@.put(
                track_id@,
                Some(
                    PostView {
                        id: discord_id@,
                        channel_id: opt_text(channel_id),
                        user_id: opt_text(user_id),
                    },
                ),
            ),
    {
        let post = DiscordMessage { id: discord_id, channel_id, user_id };
        self.put(track_id, Some(post));
    }

    /// The post of a track, if the catalog holds one for it.
    pub fn get_discord_info(&self, track_id: &str) -> (info: Option<DiscordMessage>)
        ensures
            slot_view(info) == self@.post_of(track_id@),
    {
        match self.index.get(track_id) {
            Some(Some(post)) => Some(post.clone()),
            _ => None,
        }
    }

    /// The track that was posted as the message `discord_id`: the first such
    /// track in the catalog's order, if there is one.
    pub fn find_track_by_discord_id(&self, discord_id: &str) -> (found: Option<String>)
        ensures
            match found {
                Some(id) => exists|i: int|
                    {
                        &&& #[trigger] self@.posted_as(i, discord_id@)
                        &&& id@ == self@.ids[i]
                        &&& forall|j: int| 0 <= j < i ==> !self@.posted_as(j, discord_id@)
                    },
                None => forall|i: int| !self@.posted_as(i, discord_id@),
            },
    {
        let mut i: usize = 0;
        while i < self.order.len()
            invariant
                i <= self.order@.len(),
                forall|j: int| 0 <= j < i ==> !self@.posted_as(j, discord_id@),
            decreases self.order@.len() - i,
        {
            if let Some(Some(post)) = self.index.get(self.order[i].as_str()) {
                if same_text(post.id.as_str(), discord_id) {
                    assert(self@.posted_as(i as int, discord_id@));
                    return Some(self.order[i].clone());
                }
            }
            i += 1;
        }
        None
    }

    /// The tracks that were posted in a polling cycle of `user_id`, in the
    /// catalog's order.
    pub fn find_tracks_by_user(&self, user_id: &str) -> (tracks: Vec<String>)
        ensures
            tracks.deep_view() == self@.tracks_of_user(user_id@, self@.ids.len() as int),
    {
        let mut tracks: Vec<String> = Vec::new();
        let mut i: usize = 0;
        while i < self.order.len()
            invariant
                i <= self.order@.len(),
                tracks.deep_view() == self@.tracks_of_user(user_id@, i as int),
            decreases self.order@.len() - i,
        {
            let ghost before = tracks.deep_view();
            let mut matches = false;
            if let Some(Some(post)) = self.index.get(self.order[i].as_str()) {
                if let Some(owner) = &post.user_id {
                    matches = same_text(owner.as_str(), user_id);
                }
            }
            if matches {
                tracks.push(self.order[i].clone());
                assert(tracks.deep_view() =~= before.push(self.order@[i as int]@));
            }
            i += 1;
        }
        tracks
    }

    /// The message identifiers of all posts, in the catalog's order.
    pub fn get_all_discord_ids(&self) -> (messages: Vec<String>)
        ensures
            messages.deep_view() == self@.message_ids(self@.ids.len() as int),
    {
        let mut messages: Vec<String> = Vec::new();
        let mut i: usize = 0;
        while i < self.order.len()
            invariant
                i <= self.order@.len(),
                messages.deep_view() == self@.message_ids(i as int),
            decreases self.order@.len() - i,
        {
            let ghost before = messages.deep_view();
            if let Some(Some(post)) = self.index.get(self.order[i].as_str()) {
                messages.push(post.id.clone());
                assert(messages.deep_view() =~= before.push(post.id@));
            }
            i += 1;
        }
        messages
    }

    /// Records `track_id` with `slot`, replacing what was held for it.
    pub(crate) fn put(&mut self, track_id: &str, slot: Option<DiscordMessage>)
        requires
            old(self).wf(),
        ensures
            final(self).wf(),
            final(self)@ == old(self)@.put(track_id@, slot_view(slot)),
            final(self).path() == old(self).path(),
    {
        if !self.index.contains_key(track_id) {
            self.order.push(track_id.to_owned());
        }
        self.index.insert(track_id.to_owned(), slot);
        proof {
            let before = old(self)@;
            let after = before.put(track_id@, slot_view(slot));
            assert(self@.posts =~= after.posts);
            assert(self@.ids =~= after.ids);
            lemma_put_wf(before, track_id@, slot_view(slot));
        }
    }
}

/// Recording a track keeps a catalog consistent.
pub proof fn lemma_put_wf(c: CatalogView, id: Seq<char>, slot: Option<PostView>)
    requires
        c.wf(),
    ensures
        c.put(id, slot).wf(),
{
    let after = c.put(id, slot);
    if c.posts.contains_key(id) {
        assert forall|k: Seq<char>| after.posts.contains_key(k) <==> after.ids.contains(k) by {}
    } else {
        assert(!c.ids.contains(id));
        assert forall|i: int, j: int|
            0 <= i < after.ids.len() && 0 <= j < after.ids.len() && i != j implies after.ids[i]
            != after.ids[j] by {
            if i < c.ids.len() {
                assert(c.ids.contains(c.ids[i]));
            }
            if j < c.ids.len() {
                assert(c.ids.contains(c.ids[j]));
            }
        }
        assert forall|k: Seq<char>| after.posts.contains_key(k) <==> after.ids.contains(k) by {
            if after.ids.contains(k) {
                let i = choose|i: int| 0 <= i < after.ids.len() && after.ids[i] == k;
                if i < c.ids.len() {
                    assert(c.ids.contains(k));
                }
            }
            if after.posts.contains_key(k) {
                if k == id {
                    assert(after.ids[c.ids.len() as int] == id);
                } else {
                    assert(c.posts.contains_key(k));
                    assert(c.ids.contains(k));
                    let i = choose|i: int| 0 <= i < c.ids.len() && c.ids[i] == k;
                    assert(after.ids[i] == k);
                }
            }
        }
    }
}

/// What `unseen` keeps: an identifier is among the unseen exactly where it is
/// among `ids` and not known, and it is among them once.
pub proof fn lemma_unseen(known: Set<Seq<char>>, ids: Seq<Seq<char>>)
    ensures
        unseen(known, ids).no_duplicates(),
        forall|id: Seq<char>| #[trigger]
            unseen(known, ids).contains(id) ==> ids.contains(id) && !known.contains(id),
        forall|id: Seq<char>| #[trigger]
            ids.contains(id) && !known.contains(id) ==> unseen(known, ids).contains(id),
    decreases ids.len(),
{
    if ids.len() > 0 {
        let front = ids.drop_last();
        let kept = unseen(known, ids);
        let inner = unseen(known, front);
        lemma_unseen(known, front);
        assert forall|i: int| 0 <= i < inner.len() implies kept[i] == inner[i] by {}
        assert forall|id: Seq<char>| #[trigger] kept.contains(id) implies ids.contains(id)
            && !known.contains(id) by {
            let i = choose|i: int| 0 <= i < kept.len() && kept[i] == id;
            if i >= inner.len() {
                assert(ids[ids.len() - 1] == id);
            } else {
                assert(inner[i] == id);
                assert(inner.contains(id));
                assert(front.contains(id));
                let j = choose|j: int| 0 <= j < front.len() && front[j] == id;
                assert(ids[j] == id);
            }
        }
        assert forall|id: Seq<char>| #[trigger]
            ids.contains(id) && !known.contains(id) implies kept.contains(id) by {
            let j = choose|j: int| 0 <= j < ids.len() && ids[j] == id;
            if j < ids.len() - 1 {
                assert(front[j] == id);
                assert(front.contains(id));
            }
            if inner.contains(id) {
                let i = choose|i: int| 0 <= i < inner.len() && inner[i] == id;
                assert(kept[i] == id);
            } else {
                assert(id == ids.last());
                assert(kept[kept.len() - 1] == id);
            }
        }
        assert forall|i: int, j: int| 0 <= i < kept.len() && 0 <= j < kept.len() && i != j implies kept[i]
            != kept[j] by {
            if i < inner.len() && j < inner.len() {
                assert(inner[i] != inner[j]);
            } else if i < inner.len() {
                assert(inner.contains(inner[i]));
            } else if j < inner.len() {
                assert(inner.contains(inner[j]));
            }
        }
    }
}

/// Nothing is unseen where every identifier is known.
pub proof fn lemma_unseen_none(known: Set<Seq<char>>, ids: Seq<Seq<char>>)
    requires
        forall|i: int| 0 <= i < ids.len() ==> known.contains(#[trigger] ids[i]),
    ensures
        unseen(known, ids) == Seq::<Seq<char>>::empty(),
    decreases ids.len(),
{
    if ids.len() > 0 {
        assert(known.contains(ids[ids.len() - 1]));
        assert forall|i: int| 0 <= i < ids.drop_last().len() implies known.contains(
            #[trigger] ids.drop_last()[i],
        ) by {
            assert(ids.drop_last()[i] == ids[i]);
        }
        lemma_unseen_none(known, ids.drop_last());
    }
}

/// Adding the same tracks a second time adds nothing: after `add_tracks` on
/// `ids`, none of `ids` is unseen.
pub proof fn lemma_add_tracks_idempotent(c: CatalogView, ids: Seq<Seq<char>>)
    requires
        c.wf(),
    ensures
        unseen(c.put_all_unposted(unseen(c.posts.dom(), ids)).posts.dom(), ids) == Seq::<
            Seq<char>,
        >::empty(),
{
    let added = unseen(c.posts.dom(), ids);
    let after = c.put_all_unposted(added);
    lemma_unseen(c.posts.dom(), ids);
    lemma_put_all_unposted(c, added);
    assert forall|i: int| 0 <= i < ids.len() implies after.posts.dom().contains(
        #[trigger] ids[i],
    ) by {
        let id = ids[i];
        assert(ids.contains(id));
        if c.posts.dom().contains(id) {
            assert(c.has(id));
            assert(c.has(id) || added.contains(id));
        } else {
            assert(added.contains(id));
            assert(c.has(id) || added.contains(id));
        }
        assert(after.has(id) <==> c.has(id) || added.contains(id));
    }
    lemma_unseen_none(after.posts.dom(), ids);
}

/// A track that was recorded with a post is found by the post's message:
/// unless another track already bears that message, the first track posted
/// as it is the one that was recorded.
pub proof fn lemma_recorded_post_is_found(c: CatalogView, id: Seq<char>, post: PostView)
    requires
        c.wf(),
        forall|j: int| #[trigger] c.posted_as(j, post.id) ==> c.ids[j] == id,
    ensures
        exists|i: int|
            {
                &&& #[trigger] c.put(id, Some(post)).posted_as(i, post.id)
                &&& c.put(id, Some(post)).ids[i] == id
                &&& forall|j: int| 0 <= j < i ==> !c.put(id, Some(post)).posted_as(j, post.id)
            },
{
    let after = c.put(id, Some(post));
    lemma_put_wf(c, id, Some(post));
    assert(after.has(id));
    assert(after.ids.contains(id));
    let i = choose|i: int| 0 <= i < after.ids.len() && after.ids[i] == id;
    assert(after.posted_as(i, post.id));
    assert forall|j: int| 0 <= j < i implies !after.posted_as(j, post.id) by {
        if after.posted_as(j, post.id) {
            assert(after.ids[j] != id);
            assert(c.ids[j] == after.ids[j]);
            assert(c.has(c.ids[j])) by {
                assert(c.ids.contains(c.ids[j]));
            }
            assert(c.posted_as(j, post.id));
        }
    }
}

/// What recording without a post does: the tracks held are those held before
/// and those recorded; a recorded track has no post, any other keeps what was
/// held for it; and the catalog stays consistent.
pub proof fn lemma_put_all_unposted(c: CatalogView, ids: Seq<Seq<char>>)
    requires
        c.wf(),
    ensures
        c.put_all_unposted(ids).wf(),
        forall|id: Seq<char>| c.put_all_unposted(ids).has(id) <==> c.has(id) || ids.contains(id),
        forall|id: Seq<char>| ids.contains(id) ==> c.put_all_unposted(ids).posts[id] is None,
        forall|id: Seq<char>|
            !ids.contains(id) && c.has(id) ==> c.put_all_unposted(ids).posts[id] == c.posts[id],
    decreases ids.len(),
{
    if ids.len() > 0 {
        let front = ids.drop_last();
        let mid = c.put_all_unposted(front);
        lemma_put_all_unposted(c, front);
        lemma_put_wf(mid, ids.last(), None);
        let after = c.put_all_unposted(ids);
        assert forall|id: Seq<char>| after.has(id) <==> c.has(id) || ids.contains(id) by {
            if ids.contains(id) {
                let j = choose|j: int| 0 <= j < ids.len() && ids[j] == id;
                if j < ids.len() - 1 {
                    assert(front[j] == id);
                }
            }
            if front.contains(id) {
                let j = choose|j: int| 0 <= j < front.len() && front[j] == id;
                assert(ids[j] == id);
            }
            assert(ids[ids.len() - 1] == ids.last());
        }
        assert forall|id: Seq<char>| ids.contains(id) implies after.posts[id] is None by {
            let j = choose|j: int| 0 <= j < ids.len() && ids[j] == id;
            if id != ids.last() {
                assert(front[j] == id);
                assert(front.contains(id));
                assert(mid.posts[id] is None);
            }
        }
        assert forall|id: Seq<char>| !ids.contains(id) && c.has(id) implies after.posts[id]
            == c.posts[id] by {
            assert(ids[ids.len() - 1] == ids.last());
            if front.contains(id) {
                let j = choose|j: int| 0 <= j < front.len() && front[j] == id;
                assert(ids[j] == id);
            }
        }
    }
}

} // verus!

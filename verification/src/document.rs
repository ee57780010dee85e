//! The catalog file: a JSON document with one member, `tracks`.
//!
//! In the current format `tracks` is an object that maps each track to `null`
//! or to its post, an object with `id` and the optional `channel_id` and
//! `user_id`. In the legacy format `tracks` is an array of track identifiers,
//! each a string or an integer.

use crate::db::{opt_text, slot_view, CatalogView, DiscordMessage, PostView, TrackDatabase};
use crate::json::{
    lemma_object_of_last, lemma_object_of_member, lemma_object_of_names, object_of, Json, JsonTree,
};
use crate::text::{decimal_text, integer_text, signed_text};
use vstd::prelude::*;

verus! {

/// The text of a member that may be missing or `null`: `None` where the
/// member is neither missing, `null` nor a string.
pub open spec fn optional_text(members: Map<Seq<char>, JsonTree>, name: Seq<char>) -> Option<
    Option<Seq<char>>,
> {
    if !members.contains_key(name) {
        Some(None)
    } else {
        match members[name] {
            JsonTree::Null => Some(None),
            JsonTree::Text(t) => Some(Some(t)),
            _ => None,
        }
    }
}

/// What a value under `tracks` stands for: `null` for a track without a post,
/// an object for a post. `None` where it is neither.
pub open spec fn slot_of_tree(tree: JsonTree) -> Option<Option<PostView>> {
    match tree {
        JsonTree::Null => Some(None),
        JsonTree::Object(members) => {
            if members.contains_key("id"@) && members["id"@] is Text && optional_text(
                members,
                "channel_id"@,
            ) is Some && optional_text(members, "user_id"@) is Some {
                Some(
                    Some(
                        PostView {
                            id: members["id"@]->Text_0,
                            channel_id: optional_text(members, "channel_id"@)->0,
                            user_id: optional_text(members, "user_id"@)->0,
                        },
                    ),
                )
            } else {
                None
            }
        },
        _ => None,
    }
}

/// A string, or `null` where there is none.
pub open spec fn text_or_null(text: Option<Seq<char>>) -> JsonTree {
    match text {
        Some(t) => JsonTree::Text(t),
        None => JsonTree::Null,
    }
}

/// The value written under `tracks` for a track.
pub open spec fn tree_of_slot(slot: Option<PostView>) -> JsonTree {
    match slot {
        None => JsonTree::Null,
        Some(post) => JsonTree::Object(
            Map::empty().insert("id"@, JsonTree::Text(post.id)).insert(
                "channel_id"@,
                text_or_null(post.channel_id),
            ).insert("user_id"@, text_or_null(post.user_id)),
        ),
    }
}

/// The document that is written for a catalog.
pub open spec fn document_tree(posts: Map<Seq<char>, Option<PostView>>) -> JsonTree {
    JsonTree::Object(
        Map::empty().insert(
            "tracks"@,
            JsonTree::Object(
                Map::new(
                    |id: Seq<char>| posts.contains_key(id),
                    |id: Seq<char>| tree_of_slot(posts[id]),
                ),
            ),
        ),
    )
}

/// The identifiers of a document in the legacy format: `Some` exactly where
/// the document is an object whose member `tracks` is an array.
pub open spec fn legacy_items(doc: JsonTree) -> Option<Seq<JsonTree>> {
    match doc {
        JsonTree::Object(top) => {
            if top.contains_key("tracks"@) {
                match top["tracks"@] {
                    JsonTree::Array(items) => Some(items),
                    _ => None,
                }
            } else {
                None
            }
        },
        _ => None,
    }
}

/// The catalog that a legacy array stands for: each string, and each integer
/// written in decimal, recorded without a post, in the order of the array;
/// anything else in the array is passed over.
pub open spec fn legacy_catalog(items: Seq<JsonTree>) -> CatalogView
    decreases items.len(),
{
    if items.len() == 0 {
        CatalogView::empty()
    } else {
        let before = legacy_catalog(items.drop_last());
        match items.last() {
            JsonTree::Text(t) => before.put(t, None),
            JsonTree::Integer(n) => before.put(integer_text(n), None),
            _ => before,
        }
    }
}

/// Whether every value of the object stands for a track.
pub open spec fn all_slots(members: Map<Seq<char>, JsonTree>) -> bool {
    forall|id: Seq<char>| members.contains_key(id) ==> slot_of_tree(#[trigger] members[id]) is Some
}

/// What a document in the current format holds: `None` where it is not one.
/// A document without `tracks` holds nothing.
pub open spec fn current_posts(doc: JsonTree) -> Option<Map<Seq<char>, Option<PostView>>> {
    match doc {
        JsonTree::Object(top) => {
            if !top.contains_key("tracks"@) {
                Some(Map::empty())
            } else {
                match top["tracks"@] {
                    JsonTree::Object(members) => {
                        if all_slots(members) {
                            Some(
                                Map::new(
                                    |id: Seq<char>| members.contains_key(id),
                                    |id: Seq<char>| slot_of_tree(members[id])->0,
                                ),
                            )
                        } else {
                            None
                        }
                    },
                    _ => None,
                }
            }
        },
        _ => None,
    }
}

/// The value written for a track is read back as that track.
pub proof fn lemma_slot_round_trip(slot: Option<PostView>)
    ensures
        slot_of_tree(tree_of_slot(slot)) == Some(slot),
{
    reveal_strlit("id");
    reveal_strlit("channel_id");
    reveal_strlit("user_id");
    assert("id"@.len() != "channel_id"@.len());
    assert("id"@.len() != "user_id"@.len());
    assert("channel_id"@.len() != "user_id"@.len());
    match slot {
        Some(post) => {
            let members = tree_of_slot(slot)->Object_0;
            assert(members["id"@] == JsonTree::Text(post.id));
            assert(optional_text(members, "channel_id"@) == Some(post.channel_id));
            assert(optional_text(members, "user_id"@) == Some(post.user_id));
        },
        None => {},
    }
}

/// Saving and loading keeps the catalog: the document written for a catalog
/// is in the current format, and holds the same tracks with the same posts.
pub proof fn lemma_document_round_trip(posts: Map<Seq<char>, Option<PostView>>)
    ensures
        legacy_items(document_tree(posts)) is None,
        current_posts(document_tree(posts)) == Some(posts),
{
    let top = document_tree(posts)->Object_0;
    let members = top["tracks"@]->Object_0;
    assert forall|id: Seq<char>| members.contains_key(id) implies slot_of_tree(
        #[trigger] members[id],
    ) is Some by {
        lemma_slot_round_trip(posts[id]);
    }
    let read = Map::new(
        |id: Seq<char>| members.contains_key(id),
        |id: Seq<char>| slot_of_tree(members[id])->0,
    );
    assert forall|id: Seq<char>| read.contains_key(id) implies read[id] == posts[id] by {
        lemma_slot_round_trip(posts[id]);
    }
    assert(read =~= posts);
}

/// A string member, or `null`.
fn text_or_null_json(text: &Option<String>) -> (j: Json)
    ensures
        j@ == text_or_null(opt_text(*text)),
        j.is_exact(),
{
    match text {
        Some(t) => Json::Text(t.clone()),
        None => Json::Null,
    }
}

/// The value written under `tracks` for a track.
pub fn slot_json(slot: &Option<DiscordMessage>) -> (j: Json)
    ensures
        j@ == tree_of_slot(slot_view(*slot)),
        j.is_exact(),
{
    match slot {
        None => Json::Null,
        Some(post) => {
            let mut members: Vec<(String, Json)> = Vec::new();
            members.push(("id".to_owned(), Json::Text(post.id.clone())));
            members.push(("channel_id".to_owned(), text_or_null_json(&post.channel_id)));
            members.push(("user_id".to_owned(), text_or_null_json(&post.user_id)));
            let j = Json::Object(members);
            proof {
                let views = j.member_views();
                let a = views.drop_last();
                let b = a.drop_last();
                assert(b.drop_last() =~= Seq::empty());
                assert(object_of(b.drop_last()) =~= Map::empty());
                assert(views.last() == ("user_id"@, text_or_null(opt_text(post.user_id))));
                assert(a.last() == ("channel_id"@, text_or_null(opt_text(post.channel_id))));
                assert(b.last() == ("id"@, JsonTree::Text(post.id@)));
                assert(object_of(b) == Map::empty().insert("id"@, JsonTree::Text(post.id@)));
                assert(object_of(a) == object_of(b).insert(a.last().0, a.last().1));
                assert(object_of(views) == object_of(a).insert(views.last().0, views.last().1));
                assert(members@[0].1.is_exact());
                assert(members@[1].1.is_exact());
                assert(members@[2].1.is_exact());
            }
            j
        },
    }
}

/// An optional string member of a post: `None` where the member is neither
/// missing, `null` nor a string.
fn optional_member(post: &Json, name: &str) -> (r: Option<Option<String>>)
    requires
        post@ is Object,
    ensures
        match r {
            Some(text) => optional_text(post@->Object_0, name@) == Some(opt_text(text)),
            None => optional_text(post@->Object_0, name@) is None,
        },
{
    match post.get(name) {
        None => Some(None),
        Some(Json::Null) => Some(None),
        Some(Json::Text(t)) => Some(Some(t.clone())),
        Some(_) => None,
    }
}

/// Reads a value under `tracks`: `None` where it stands for no track.
pub fn decode_slot(value: &Json) -> (r: Option<Option<DiscordMessage>>)
    ensures
        match r {
            Some(slot) => slot_of_tree(value@) == Some(slot_view(slot)),
            None => slot_of_tree(value@) is None,
        },
{
    match value {
        Json::Null => Some(None),
        Json::Object(_) => {
            let id = match value.get("id") {
                Some(Json::Text(t)) => t.clone(),
                _ => {
                    return None;
                },
            };
            let channel_id = match optional_member(value, "channel_id") {
                Some(text) => text,
                None => {
                    return None;
                },
            };
            let user_id = match optional_member(value, "user_id") {
                Some(text) => text,
                None => {
                    return None;
                },
            };
            Some(Some(DiscordMessage { id, channel_id, user_id }))
        },
        _ => None,
    }
}

/// Which format a catalog document was in.
#[derive(Clone, Copy, Debug, PartialEq, Eq, Structural)]
pub enum Format {
    /// `tracks` is an array of identifiers.
    Legacy,
    /// `tracks` is an object, or missing.
    Current,
}

/// The document is in neither format of the catalog file.
#[derive(Clone, Copy, Debug, PartialEq, Eq, Structural)]
pub struct NotACatalog;

/// Reads the array of a legacy document.
fn legacy_database(tracks: &Json, db_path: String) -> (db: TrackDatabase)
    requires
        tracks@ is Array,
    ensures
        db.wf(),
        db.path() == db_path@,
        db@ == legacy_catalog(tracks@->Array_0),
{
    let ghost all = tracks@->Array_0;
    let mut db = TrackDatabase::new(db_path);
    match tracks {
        Json::Array(items) => {
            let mut i: usize = 0;
            while i < items.len()
                invariant
                    i <= items@.len(),
                    tracks == Json::Array(*items),
                    all == tracks@->Array_0,
                    db.wf(),
                    db.path() == db_path@,
                    db@ == legacy_catalog(all.take(i as int)),
                decreases items@.len() - i,
            {
                proof {
                    assert(all =~= tracks.item_views());
                    assert(all.take(i + 1).drop_last() =~= all.take(i as int));
                    assert(all.take(i + 1).last() == items@[i as int]@);
                }
                match &items[i] {
                    Json::Text(t) => {
                        db.put(t.as_str(), None);
                    },
                    Json::Unsigned(n) => {
                        let id = decimal_text(*n);
                        db.put(id.as_str(), None);
                    },
                    Json::Signed(n) => {
                        let id = signed_text(*n);
                        db.put(id.as_str(), None);
                    },
                    _ => {},
                }
                i += 1;
            }
            assert(all.take(i as int) =~= all);
        },
        _ => {},
    }
    db
}

/// Reads the object under `tracks` of a document in the current format:
/// `None` where one of its values stands for no track.
fn current_database(tracks: &Json, db_path: String) -> (r: Option<TrackDatabase>)
    requires
        tracks@ is Object,
    ensures
        match r {
            Some(db) => {
                &&& db.wf()
                &&& db.path() == db_path@
                &&& all_slots(tracks@->Object_0)
                &&& db@.posts == Map::new(
                    |id: Seq<char>| tracks@->Object_0.contains_key(id),
                    |id: Seq<char>| slot_of_tree(tracks@->Object_0[id])->0,
                )
            },
            None => !all_slots(tracks@->Object_0),
        },
{
    let ghost object = tracks@->Object_0;
    let ghost views = tracks.member_views();
    let mut db = TrackDatabase::new(db_path);
    match tracks {
        Json::Object(members) => {
            proof {
                lemma_object_of_names(views);
            }
            let mut i: usize = members.len();
            while i > 0
                invariant
                    i <= members@.len(),
                    tracks == Json::Object(*members),
                    views == tracks.member_views(),
                    object == object_of(views),
                    db.wf(),
                    db.path() == db_path@,
                    forall|id: Seq<char>|
                        db@.has(id) <==> exists|k: int|
                            i <= k < views.len() && (#[trigger] views[k]).0 == id,
                    forall|id: Seq<char>| #[trigger]
                        db@.has(id) ==> object.contains_key(id) && slot_of_tree(object[id])
                            == Some(db@.posts[id]),
                decreases i,
            {
                i -= 1;
                let ghost before = db@;
                let name = members[i].0.as_str();
                assert(views[i as int] == (members@[i as int].0@, members@[i as int].1@));
                if !db.has_track(name) {
                    proof {
                        assert forall|k: int| i < k < views.len() implies (#[trigger] views[k]).0
                            != views[i as int].0 by {
                            if views[k].0 == name@ {
                                assert(before.has(name@));
                            }
                        }
                        lemma_object_of_last(views, i as int);
                    }
                    match decode_slot(&members[i].1) {
                        Some(slot) => {
                            db.put(name, slot);
                            proof {
                                assert(object[name@] == members@[i as int].1@);
                                assert forall|id: Seq<char>| #[trigger] db@.has(id) implies object.contains_key(id)
                                    && slot_of_tree(object[id]) == Some(db@.posts[id]) by {
                                    if id != name@ {
                                        assert(before.has(id));
                                    }
                                }
                            }
                        },
                        None => {
                            return None;
                        },
                    }
                }
                proof {
                    assert forall|id: Seq<char>|
                        db@.has(id) <==> exists|k: int|
                            i <= k < views.len() && (#[trigger] views[k]).0 == id by {
                        if db@.has(id) {
                            if id != name@ {
                                assert(before.has(id));
                                let k = choose|k: int|
                                    i + 1 <= k < views.len() && (#[trigger] views[k]).0 == id;
                                assert(i <= k < views.len() && views[k].0 == id);
                            } else {
                                assert(views[i as int].0 == id);
                            }
                        }
                        if exists|k: int| i <= k < views.len() && (#[trigger] views[k]).0 == id {
                            let k = choose|k: int|
                                i <= k < views.len() && (#[trigger] views[k]).0 == id;
                            if k > i {
                                assert(i + 1 <= k < views.len() && views[k].0 == id);
                                assert(before.has(id));
                            }
                        }
                    }
                }
            }
            proof {
                let target = Map::new(
                    |id: Seq<char>| object.contains_key(id),
                    |id: Seq<char>| slot_of_tree(object[id])->0,
                );
                assert forall|id: Seq<char>| object.contains_key(id) implies db@.has(id) by {
                    let k = choose|k: int| 0 <= k < views.len() && (#[trigger] views[k]).0 == id;
                    assert(0 <= k < views.len() && views[k].0 == id);
                }
                assert forall|id: Seq<char>| db@.posts.contains_key(id) implies db@.posts[id]
                    == target[id] by {
                    assert(db@.has(id));
                }
                assert forall|id: Seq<char>| db@.posts.contains_key(id) <==> target.contains_key(
                    id,
                ) by {
                    if db@.posts.contains_key(id) {
                        assert(db@.has(id));
                    }
                    if target.contains_key(id) {
                        assert(object.contains_key(id));
                        assert(db@.has(id));
                    }
                }
                assert(db@.posts =~= target);
                assert forall|id: Seq<char>| object.contains_key(id) implies slot_of_tree(
                    #[trigger] object[id],
                ) is Some by {
                    assert(db@.has(id));
                }
            }
        },
        _ => {},
    }
    Some(db)
}

impl TrackDatabase {
    /// Reads a catalog from its document, in either format.
    ///
    /// A document whose `tracks` is an array is in the legacy format. Any
    /// other is read in the current format, and refused where it is not in it.
    /// The catalog gets `db_path` as the path of its file.
    pub fn from_document(doc: &Json, db_path: String) -> (r: Result<
        (TrackDatabase, Format),
        NotACatalog,
    >)
        ensures
            match r {
                Ok((db, Format::Legacy)) => {
                    &&& legacy_items(doc@) matches Some(items)
                    &&& db@ == legacy_catalog(items)
                    &&& db.wf()
                    &&& db.path() == db_path@
                },
                Ok((db, Format::Current)) => {
                    &&& legacy_items(doc@) is None
                    &&& current_posts(doc@) == Some(db@.posts)
                    &&& db.wf()
                    &&& db.path() == db_path@
                },
                Err(_) => legacy_items(doc@) is None && current_posts(doc@) is None,
            },
    {
        match doc {
            Json::Object(_) => match doc.get("tracks") {
                None => {
                    let db = TrackDatabase::new(db_path);
                    assert(db@.posts =~= Map::empty());
                    Ok((db, Format::Current))
                },
                Some(tracks) => match tracks {
                    Json::Array(_) => Ok((legacy_database(tracks, db_path), Format::Legacy)),
                    Json::Object(_) => match current_database(tracks, db_path) {
                        Some(db) => Ok((db, Format::Current)),
                        None => Err(NotACatalog),
                    },
                    _ => Err(NotACatalog),
                },
            },
            _ => Err(NotACatalog),
        }
    }

    /// The document that is written to the catalog file.
    pub fn to_document(&self) -> (doc: Json)
        requires
            self.wf(),
        ensures
            doc@ == document_tree(self@.posts),
            doc.is_exact(),
    {
        let ids = self.get_all_tracks();
        let ghost posts = self@.posts;
        let mut members: Vec<(String, Json)> = Vec::new();
        let mut i: usize = 0;
        while i < ids.len()
            invariant
                i <= ids@.len(),
                ids.deep_view() == self@.ids,
                posts == self@.posts,
                self.wf(),
                members@.len() == i,
                forall|k: int|
                    0 <= k < i ==> (#[trigger] members@[k]).0@ == self@.ids[k] && members@[k].1@
                        == tree_of_slot(posts[self@.ids[k]]) && members@[k].1.is_exact(),
            decreases ids@.len() - i,
        {
            let slot = self.get_discord_info(ids[i].as_str());
            proof {
                assert(ids.deep_view()[i as int] == ids@[i as int]@);
                assert(self@.ids.contains(self@.ids[i as int]));
            }
            members.push((ids[i].clone(), slot_json(&slot)));
            i += 1;
        }
        let inner = Json::Object(members);
        proof {
            let views = inner.member_views();
            let target = Map::new(
                |id: Seq<char>| posts.contains_key(id),
                |id: Seq<char>| tree_of_slot(posts[id]),
            );
            lemma_object_of_names(views);
            assert forall|a: int, b: int| 0 <= a < b < views.len() implies (#[trigger] views[a]).0
                != (#[trigger] views[b]).0 by {
                assert(members@[a].0@ == self@.ids[a]);
                assert(members@[b].0@ == self@.ids[b]);
            }
            assert forall|id: Seq<char>| object_of(views).contains_key(id) <==> target.contains_key(
                id,
            ) by {
                if object_of(views).contains_key(id) {
                    let k = choose|k: int| 0 <= k < views.len() && (#[trigger] views[k]).0 == id;
                    assert(members@[k].0@ == self@.ids[k]);
                    assert(self@.ids.contains(id));
                }
                if target.contains_key(id) {
                    assert(self@.ids.contains(id));
                    let k = choose|k: int| 0 <= k < self@.ids.len() && self@.ids[k] == id;
                    assert(members@[k].0@ == id);
                    assert(views[k].0 == id);
                }
            }
            assert forall|id: Seq<char>| object_of(views).contains_key(id) implies object_of(
                views,
            )[id] == target[id] by {
                let k = choose|k: int| 0 <= k < views.len() && (#[trigger] views[k]).0 == id;
                assert(members@[k].0@ == self@.ids[k]);
                assert(views[k] == (members@[k].0@, members@[k].1@));
                assert(members@[k].1@ == tree_of_slot(posts[self@.ids[k]]));
                lemma_object_of_member(views, k);
                assert(object_of(views)[id] == views[k].1);
                assert(target.contains_key(id));
            }
            assert(object_of(views) =~= target);
            assert(inner.is_exact()) by {
                assert forall|k: int| 0 <= k < members@.len() implies (#[trigger] members@[k]).1.is_exact() by {}
            }
        }
        let mut top: Vec<(String, Json)> = Vec::new();
        top.push(("tracks".to_owned(), inner));
        let doc = Json::Object(top);
        proof {
            let views = doc.member_views();
            assert(views.drop_last() =~= Seq::empty());
            assert(object_of(views.drop_last()) =~= Map::empty());
            assert(views.last() == ("tracks"@, inner@));
            assert(top@[0].1.is_exact());
        }
        doc
    }
}

} // verus!

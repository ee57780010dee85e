//! The embed that presents a track in a Discord message.

use crate::db::{clone_opt, opt_text};
use crate::json::{object_of, Json, JsonTree};
use crate::tags::{parse_tags, tags_of};
use crate::text::{decimal, digit, digit_char, join, joined, push_decimal};
use vstd::prelude::*;
use vstd::string::{StringExecFns, StringSliceAdditionalSpecFns};
use vstd::utf8::{
    decode_utf8, encode_utf8, encode_utf8_decode_utf8, encode_utf8_valid_utf8, is_char_boundary,
    is_ascii_chars, is_ascii_chars_encode_utf8,
};

verus! {

/// The largest description that is sent as it is, in bytes.
pub const MAX_DESCRIPTION_LENGTH: usize = 2000;

/// The last place at or before `at` where `bytes` can be cut between two
/// characters.
pub open spec fn cut_at_or_before(bytes: Seq<u8>, at: int) -> int
    decreases at,
{
    if at <= 0 {
        0
    } else if is_char_boundary(bytes, at) {
        at
    } else {
        cut_at_or_before(bytes, at - 1)
    }
}

/// The description as it is sent: one of more than `MAX_DESCRIPTION_LENGTH`
/// bytes is cut at the last character that ends within them, and gets three
/// dots behind it.
pub open spec fn shortened(description: Seq<char>) -> Seq<char> {
    let bytes = encode_utf8(description);
    if bytes.len() <= MAX_DESCRIPTION_LENGTH {
        description
    } else {
        decode_utf8(bytes.subrange(0, cut_at_or_before(bytes, MAX_DESCRIPTION_LENGTH as int)))
            + "..."@
    }
}

/// The bytes of two texts one after the other are the bytes of the first
/// followed by those of the second.
pub proof fn lemma_encode_concat(a: Seq<char>, b: Seq<char>)
    ensures
        encode_utf8(a + b) == encode_utf8(a) + encode_utf8(b),
    decreases a.len(),
{
    if a.len() == 0 {
        assert(a + b =~= b);
        assert(encode_utf8(a) + encode_utf8(b) =~= encode_utf8(b));
    } else {
        lemma_encode_concat(a.drop_first(), b);
        assert((a + b).drop_first() =~= a.drop_first() + b);
        assert((a + b)[0] == a[0]);
        assert(encode_utf8(a + b) =~= encode_utf8(a) + encode_utf8(b));
    }
}

/// The cut is a place between two characters, at or before `at`.
pub proof fn lemma_cut(bytes: Seq<u8>, at: int)
    requires
        0 <= at <= bytes.len(),
    ensures
        0 <= cut_at_or_before(bytes, at) <= at,
        cut_at_or_before(bytes, at) > 0 ==> is_char_boundary(bytes, cut_at_or_before(bytes, at)),
    decreases at,
{
    if at > 0 && !is_char_boundary(bytes, at) {
        lemma_cut(bytes, at - 1);
    }
}

/// A description as it is sent has at most `MAX_DESCRIPTION_LENGTH` bytes and
/// three more.
pub proof fn lemma_shortened_length(description: Seq<char>)
    ensures
        encode_utf8(shortened(description)).len() <= MAX_DESCRIPTION_LENGTH + 3,
{
    let bytes = encode_utf8(description);
    if bytes.len() > MAX_DESCRIPTION_LENGTH {
        let cut = cut_at_or_before(bytes, MAX_DESCRIPTION_LENGTH as int);
        lemma_cut(bytes, MAX_DESCRIPTION_LENGTH as int);
        let head = bytes.subrange(0, cut);
        encode_utf8_valid_utf8(description);
        if cut > 0 {
            vstd::utf8::valid_utf8_split(bytes, cut);
        } else {
            assert(head =~= Seq::<u8>::empty());
        }
        vstd::utf8::decode_utf8_encode_utf8(head);
        lemma_encode_concat(decode_utf8(head), "..."@);
        reveal_strlit("...");
        assert(is_ascii_chars("..."@));
        is_ascii_chars_encode_utf8("..."@);
    }
}

/// Shortens a description that is too long to be sent.
pub fn truncate_description(description: &str) -> (sent: String)
    ensures
        sent@ == shortened(description@),
        encode_utf8(sent@).len() <= MAX_DESCRIPTION_LENGTH + 3,
{
    proof {
        lemma_shortened_length(description@);
        encode_utf8_valid_utf8(description@);
    }
    if description.as_bytes().len() <= MAX_DESCRIPTION_LENGTH {
        description.to_owned()
    } else {
        let ghost bytes = description.spec_bytes();
        let mut at: usize = MAX_DESCRIPTION_LENGTH;
        while !description.is_char_boundary(at)
            invariant
                at <= MAX_DESCRIPTION_LENGTH,
                bytes == description.spec_bytes(),
                vstd::utf8::valid_utf8(bytes),
                MAX_DESCRIPTION_LENGTH < bytes.len(),
                cut_at_or_before(bytes, MAX_DESCRIPTION_LENGTH as int) == cut_at_or_before(
                    bytes,
                    at as int,
                ),
            decreases at,
        {
            at -= 1;
        }
        let (head, _) = description.split_at(at);
        proof {
            assert(cut_at_or_before(bytes, at as int) == at);
            encode_utf8_decode_utf8(head@);
        }
        let mut sent = head.to_owned();
        sent.append("...");
        sent
    }
}

/// The account that published a track.
#[derive(Debug)]
pub struct TrackUser {
    pub username: String,
    pub permalink_url: String,
    pub avatar_url: Option<String>,
}

/// A track as the SoundCloud client delivers it.
#[derive(Debug)]
pub struct Track {
    pub id: String,
    pub title: String,
    pub description: Option<String>,
    pub permalink_url: String,
    /// When the track was created, as SoundCloud writes it.
    pub created_at: String,
    /// The length of the track in milliseconds.
    pub duration: u64,
    /// The address of the artwork in its original size, if the track has
    /// artwork.
    pub artwork_url: Option<String>,
    pub user: TrackUser,
    pub playback_count: Option<u64>,
    pub likes_count: Option<u64>,
    pub reposts_count: Option<u64>,
    pub comment_count: Option<u64>,
    pub genre: Option<String>,
    pub tag_list: Option<String>,
    /// The document that SoundCloud sent for the track, where it was kept.
    pub raw_data: Option<Json>,
}

/// The mathematical value of a `Track`.
pub struct TrackView {
    pub id: Seq<char>,
    pub title: Seq<char>,
    pub description: Option<Seq<char>>,
    pub permalink_url: Seq<char>,
    pub created_at: Seq<char>,
    pub duration: u64,
    pub artwork_url: Option<Seq<char>>,
    pub username: Seq<char>,
    pub user_permalink_url: Seq<char>,
    pub avatar_url: Option<Seq<char>>,
    pub playback_count: Option<u64>,
    pub likes_count: Option<u64>,
    pub reposts_count: Option<u64>,
    pub comment_count: Option<u64>,
    pub genre: Option<Seq<char>>,
    pub tag_list: Option<Seq<char>>,
    pub raw_data: Option<JsonTree>,
}

impl View for Track {
    type V = TrackView;

    open spec fn view(&self) -> TrackView {
        TrackView {
            id: self.id@,
            title: self.title@,
            description: opt_text(self.description),
            permalink_url: self.permalink_url@,
            created_at: self.created_at@,
            duration: self.duration,
            artwork_url: opt_text(self.artwork_url),
            username: self.user.username@,
            user_permalink_url: self.user.permalink_url@,
            avatar_url: opt_text(self.user.avatar_url),
            playback_count: self.playback_count,
            likes_count: self.likes_count,
            reposts_count: self.reposts_count,
            comment_count: self.comment_count,
            genre: opt_text(self.genre),
            tag_list: opt_text(self.tag_list),
            raw_data: match self.raw_data {
                Some(raw) => Some(raw@),
                None => None,
            },
        }
    }
}

/// What is known of a track besides its title and addresses.
#[derive(Debug)]
pub struct TrackMetadata {
    pub play_count: Option<u64>,
    pub likes_count: Option<u64>,
    pub reposts_count: Option<u64>,
    pub comment_count: Option<u64>,
    pub genre: Option<String>,
    pub tags: Option<String>,
}

/// The mathematical value of a `TrackMetadata`.
pub struct MetadataView {
    pub play_count: Option<u64>,
    pub likes_count: Option<u64>,
    pub reposts_count: Option<u64>,
    pub comment_count: Option<u64>,
    pub genre: Option<Seq<char>>,
    pub tags: Option<Seq<char>>,
}

impl View for TrackMetadata {
    type V = MetadataView;

    open spec fn view(&self) -> MetadataView {
        MetadataView {
            play_count: self.play_count,
            likes_count: self.likes_count,
            reposts_count: self.reposts_count,
            comment_count: self.comment_count,
            genre: opt_text(self.genre),
            tags: opt_text(self.tags),
        }
    }
}

/// The number under `name` in an object, if there is one from 0 to
/// `u64::MAX`.
pub open spec fn member_count(doc: JsonTree, name: Seq<char>) -> Option<u64> {
    match doc {
        JsonTree::Object(members) => if members.contains_key(name) {
            match members[name] {
                JsonTree::Integer(n) => if 0 <= n <= u64::MAX {
                    Some(n as u64)
                } else {
                    None
                },
                _ => None,
            }
        } else {
            None
        },
        _ => None,
    }
}

/// The string under `name` in an object, if there is one.
pub open spec fn member_text(doc: JsonTree, name: Seq<char>) -> Option<Seq<char>> {
    match doc {
        JsonTree::Object(members) => if members.contains_key(name) {
            match members[name] {
                JsonTree::Text(t) => Some(t),
                _ => None,
            }
        } else {
            None
        },
        _ => None,
    }
}

/// What is known of a track: taken from the document that SoundCloud sent
/// where the track has it, and from the track's own fields otherwise.
pub open spec fn metadata_of(track: TrackView) -> MetadataView {
    match track.raw_data {
        Some(raw) => MetadataView {
            play_count: member_count(raw, "playback_count"@),
            likes_count: member_count(raw, "likes_count"@),
            reposts_count: member_count(raw, "reposts_count"@),
            comment_count: member_count(raw, "comment_count"@),
            genre: member_text(raw, "genre"@),
            tags: member_text(raw, "tag_list"@),
        },
        None => MetadataView {
            play_count: track.playback_count,
            likes_count: track.likes_count,
            reposts_count: track.reposts_count,
            comment_count: track.comment_count,
            genre: track.genre,
            tags: track.tag_list,
        },
    }
}

/// The number under `name` in an object.
fn count_member(doc: &Json, name: &str) -> (r: Option<u64>)
    ensures
        r == member_count(doc@, name@),
{
    match doc.get(name) {
        Some(value) => value.as_u64(),
        None => None,
    }
}

/// The string under `name` in an object.
fn text_member(doc: &Json, name: &str) -> (r: Option<String>)
    ensures
        opt_text(r) == member_text(doc@, name@),
{
    match doc.get(name) {
        Some(value) => match value.as_str() {
            Some(t) => Some(t.to_owned()),
            None => None,
        },
        None => None,
    }
}

/// Gathers what is known of a track.
pub fn track_metadata(track: &Track) -> (metadata: TrackMetadata)
    ensures
        metadata@ == metadata_of(track@),
{
    match &track.raw_data {
        Some(raw) => TrackMetadata {
            play_count: count_member(raw, "playback_count"),
            likes_count: count_member(raw, "likes_count"),
            reposts_count: count_member(raw, "reposts_count"),
            comment_count: count_member(raw, "comment_count"),
            genre: text_member(raw, "genre"),
            tags: text_member(raw, "tag_list"),
        },
        None => TrackMetadata {
            play_count: track.playback_count,
            likes_count: track.likes_count,
            reposts_count: track.reposts_count,
            comment_count: track.comment_count,
            genre: clone_opt(&track.genre),
            tags: clone_opt(&track.tag_list),
        },
    }
}

/// A length in milliseconds as minutes and seconds: the minutes, a colon,
/// and the seconds in two digits.
pub open spec fn duration_text(milliseconds: u64) -> Seq<char> {
    let seconds = milliseconds as nat / 1000;
    decimal(seconds / 60).push(':').push(digit(seconds % 60 / 10)).push(digit(seconds % 60 % 10))
}

/// Writes a length in milliseconds as minutes and seconds.
pub fn format_duration(milliseconds: u64) -> (text: String)
    ensures
        text@ == duration_text(milliseconds),
{
    let seconds = milliseconds / 1000;
    let mut text = String::new();
    push_decimal(&mut text, seconds / 60);
    text.push(':');
    text.push(digit_char(seconds % 60 / 10));
    text.push(digit_char(seconds % 60 % 10));
    assert(text@ =~= duration_text(milliseconds));
    text
}

/// What stands at the foot of every embed.
pub open spec fn footer_text() -> Seq<char> {
    "SoundCloud Archiver • All available audio formats are attached"@
}

/// The colour of every embed.
pub const EMBED_COLOR: u64 = 0xFF7700;

/// One field of an embed.
pub open spec fn field_tree(name: Seq<char>, value: Seq<char>, inline: bool) -> JsonTree {
    JsonTree::Object(
        object_of(
            seq![
                ("name"@, JsonTree::Text(name)),
                ("value"@, JsonTree::Text(value)),
                ("inline"@, JsonTree::Bool(inline)),
            ],
        ),
    )
}

/// The text, or nothing where there is none.
pub open spec fn text_or_empty(text: Option<Seq<char>>) -> Seq<char> {
    match text {
        Some(t) => t,
        None => Seq::empty(),
    }
}

/// The fields of the embed of a track: its length where that is known, its
/// genre where one is given, and its tags where it has any.
pub open spec fn field_trees(track: TrackView) -> Seq<JsonTree> {
    let metadata = metadata_of(track);
    let duration = if track.duration > 0 {
        seq![field_tree("Duration"@, duration_text(track.duration), true)]
    } else {
        Seq::empty()
    };
    let genre = match metadata.genre {
        Some(g) => if g.len() > 0 {
            seq![field_tree("Genre"@, g, true)]
        } else {
            Seq::empty()
        },
        None => Seq::empty(),
    };
    let tags = match metadata.tags {
        Some(t) => if tags_of(t).len() > 0 {
            seq![field_tree("Tags"@, joined(tags_of(t), ", "@), false)]
        } else {
            Seq::empty()
        },
        None => Seq::empty(),
    };
    duration + genre + tags
}

/// The embed of a track.
pub open spec fn embed_tree(track: TrackView) -> JsonTree {
    JsonTree::Object(
        object_of(
            seq![
                ("title"@, JsonTree::Text(track.title)),
                ("type"@, JsonTree::Text("rich"@)),
                ("description"@, JsonTree::Text(shortened(text_or_empty(track.description)))),
                ("url"@, JsonTree::Text(track.permalink_url)),
                ("timestamp"@, JsonTree::Text(track.created_at)),
                ("color"@, JsonTree::Integer(EMBED_COLOR as int)),
                (
                    "author"@,
                    JsonTree::Object(
                        object_of(
                            seq![
                                ("name"@, JsonTree::Text(track.username)),
                                ("url"@, JsonTree::Text(track.user_permalink_url)),
                                ("icon_url"@, JsonTree::Text(text_or_empty(track.avatar_url))),
                            ],
                        ),
                    ),
                ),
                (
                    "thumbnail"@,
                    JsonTree::Object(
                        object_of(
                            seq![("url"@, JsonTree::Text(text_or_empty(track.artwork_url)))],
                        ),
                    ),
                ),
                ("fields"@, JsonTree::Array(field_trees(track))),
                (
                    "footer"@,
                    JsonTree::Object(object_of(seq![("text"@, JsonTree::Text(footer_text()))])),
                ),
            ],
        ),
    )
}

/// A string as a document.
pub fn text_json(text: &str) -> (j: Json)
    ensures
        j@ == JsonTree::Text(text@),
        j.is_exact(),
{
    Json::Text(text.to_owned())
}

/// An optional string as a document: the empty string where there is none.
fn text_or_empty_json(text: &Option<String>) -> (j: Json)
    ensures
        j@ == JsonTree::Text(text_or_empty(opt_text(*text))),
        j.is_exact(),
{
    match text {
        Some(t) => Json::Text(t.clone()),
        None => Json::Text(String::new()),
    }
}

/// An object with one member.
fn single_member(name: &str, value: Json) -> (j: Json)
    requires
        value.is_exact(),
    ensures
        j@ == JsonTree::Object(object_of(seq![(name@, value@)])),
        j.is_exact(),
{
    let mut members: Vec<(String, Json)> = Vec::new();
    members.push((name.to_owned(), value));
    let j = Json::Object(members);
    proof {
        assert(j.member_views() =~= seq![(name@, value@)]);
        assert(members@[0].1.is_exact());
    }
    j
}

/// One field of an embed.
fn embed_field(name: &str, value: String, inline: bool) -> (j: Json)
    ensures
        j@ == field_tree(name@, value@, inline),
        j.is_exact(),
{
    let mut members: Vec<(String, Json)> = Vec::new();
    members.push(("name".to_owned(), text_json(name)));
    members.push(("value".to_owned(), Json::Text(value)));
    members.push(("inline".to_owned(), Json::Bool(inline)));
    let j = Json::Object(members);
    proof {
        assert(j.member_views() =~= seq![
            ("name"@, JsonTree::Text(name@)),
            ("value"@, JsonTree::Text(value@)),
            ("inline"@, JsonTree::Bool(inline)),
        ]);
        assert(members@[0].1.is_exact());
        assert(members@[1].1.is_exact());
        assert(members@[2].1.is_exact());
    }
    j
}

/// The fields of the embed of a track.
fn embed_fields(track: &Track) -> (j: Json)
    ensures
        j@ == JsonTree::Array(field_trees(track@)),
        j.is_exact(),
{
    let metadata = track_metadata(track);
    let mut fields: Vec<Json> = Vec::new();
    let ghost mut trees: Seq<JsonTree> = Seq::empty();
    if track.duration > 0 {
        fields.push(embed_field("Duration", format_duration(track.duration), true));
        proof {
            trees = trees.push(field_tree("Duration"@, duration_text(track.duration), true));
        }
    }
    assert(fields@.len() == trees.len());
    if let Some(genre) = metadata.genre {
        if !genre.as_str().is_empty() {
            let ghost g = genre@;
            fields.push(embed_field("Genre", genre, true));
            proof {
                trees = trees.push(field_tree("Genre"@, g, true));
            }
        }
    }
    assert(fields@.len() == trees.len());
    if let Some(tag_list) = metadata.tags {
        let tags = parse_tags(tag_list.as_str());
        if tags.len() > 0 {
            fields.push(embed_field("Tags", join(&tags, ", "), false));
            proof {
                trees = trees.push(
                    field_tree("Tags"@, joined(tags_of(tag_list@), ", "@), false),
                );
            }
        }
    }
    let j = Json::Array(fields);
    proof {
        assert(trees =~= field_trees(track@));
        assert(j.item_views() =~= trees);
    }
    j
}

/// Builds the embed that presents a track.
pub fn build_track_embed(track: &Track) -> (embed: Json)
    ensures
        embed@ == embed_tree(track@),
        embed.is_exact(),
{
    let description = match &track.description {
        Some(text) => truncate_description(text.as_str()),
        None => truncate_description(""),
    };
    proof {
        reveal_strlit("");
        assert(""@ =~= Seq::<char>::empty());
    }
    let mut author: Vec<(String, Json)> = Vec::new();
    author.push(("name".to_owned(), text_json(track.user.username.as_str())));
    author.push(("url".to_owned(), text_json(track.user.permalink_url.as_str())));
    author.push(("icon_url".to_owned(), text_or_empty_json(&track.user.avatar_url)));
    let author = Json::Object(author);
    proof {
        assert(author.member_views() =~= seq![
            ("name"@, JsonTree::Text(track@.username)),
            ("url"@, JsonTree::Text(track@.user_permalink_url)),
            ("icon_url"@, JsonTree::Text(text_or_empty(track@.avatar_url))),
        ]);
        assert(author->Object_0@[0].1.is_exact());
        assert(author->Object_0@[1].1.is_exact());
        assert(author->Object_0@[2].1.is_exact());
        assert(author.is_exact());
    }
    let thumbnail = single_member("url", text_or_empty_json(&track.artwork_url));
    let footer = single_member(
        "text",
        text_json("SoundCloud Archiver • All available audio formats are attached"),
    );
    let fields = embed_fields(track);
    let mut members: Vec<(String, Json)> = Vec::new();
    members.push(("title".to_owned(), text_json(track.title.as_str())));
    members.push(("type".to_owned(), text_json("rich")));
    members.push(("description".to_owned(), Json::Text(description)));
    members.push(("url".to_owned(), text_json(track.permalink_url.as_str())));
    members.push(("timestamp".to_owned(), text_json(track.created_at.as_str())));
    members.push(("color".to_owned(), Json::Unsigned(EMBED_COLOR)));
    members.push(("author".to_owned(), author));
    members.push(("thumbnail".to_owned(), thumbnail));
    members.push(("fields".to_owned(), fields));
    members.push(("footer".to_owned(), footer));
    let embed = Json::Object(members);
    proof {
        assert(embed.member_views() =~= seq![
            ("title"@, JsonTree::Text(track@.title)),
            ("type"@, JsonTree::Text("rich"@)),
            ("description"@, JsonTree::Text(shortened(text_or_empty(track@.description)))),
            ("url"@, JsonTree::Text(track@.permalink_url)),
            ("timestamp"@, JsonTree::Text(track@.created_at)),
            ("color"@, JsonTree::Integer(EMBED_COLOR as int)),
            ("author"@, author@),
            ("thumbnail"@, thumbnail@),
            ("fields"@, JsonTree::Array(field_trees(track@))),
            ("footer"@, footer@),
        ]);
        assert forall|i: int| 0 <= i < members@.len() implies (#[trigger] members@[i]).1.is_exact() by {
            if i == 0 {
            } else if i == 1 {
            } else if i == 2 {
            } else if i == 3 {
            } else if i == 4 {
            } else if i == 5 {
            } else if i == 6 {
            } else if i == 7 {
            } else if i == 8 {
            } else {
            }
        }
    }
    embed
}

/// The name under which every message is posted.
pub open spec fn poster_name() -> Seq<char> {
    "SoundCloud Archiver"@
}

/// The body of a webhook message: the embed, and the name of the poster.
pub open spec fn payload_tree(embed: JsonTree) -> JsonTree {
    JsonTree::Object(
        object_of(
            seq![
                ("embeds"@, JsonTree::Array(seq![embed])),
                ("username"@, JsonTree::Text(poster_name())),
            ],
        ),
    )
}

/// Builds the body of a webhook message around an embed.
pub fn build_payload(embed: Json) -> (payload: Json)
    requires
        embed.is_exact(),
    ensures
        payload@ == payload_tree(embed@),
        payload.is_exact(),
{
    let mut embeds: Vec<Json> = Vec::new();
    embeds.push(embed);
    let embeds = Json::Array(embeds);
    proof {
        assert(embeds.item_views() =~= seq![embed@]);
        assert(embeds->Array_0@[0].is_exact());
        assert(embeds.is_exact());
    }
    let mut members: Vec<(String, Json)> = Vec::new();
    members.push(("embeds".to_owned(), embeds));
    members.push(("username".to_owned(), text_json("SoundCloud Archiver")));
    let payload = Json::Object(members);
    proof {
        assert(payload.member_views() =~= seq![
            ("embeds"@, JsonTree::Array(seq![embed@])),
            ("username"@, JsonTree::Text(poster_name())),
        ]);
        assert(members@[0].1.is_exact());
        assert(members@[1].1.is_exact());
    }
    payload
}

} // verus!

use soundcloud_archiver::embed::{
    build_payload, build_track_embed, format_duration, track_metadata, truncate_description, Track,
    TrackUser, EMBED_COLOR, MAX_DESCRIPTION_LENGTH,
};
use soundcloud_archiver::json::Json;

fn track() -> Track {
    Track {
        id: "100".to_string(),
        title: "Song".to_string(),
        description: Some("About the song".to_string()),
        permalink_url: "https://soundcloud.com/u/song".to_string(),
        created_at: "2024-01-02T03:04:05Z".to_string(),
        duration: 185_000,
        artwork_url: Some("https://i1.sndcdn.com/art-original.jpg".to_string()),
        user: TrackUser {
            username: "User".to_string(),
            permalink_url: "https://soundcloud.com/u".to_string(),
            avatar_url: Some("https://i1.sndcdn.com/avatar.jpg".to_string()),
        },
        playback_count: Some(10),
        likes_count: Some(2),
        reposts_count: None,
        comment_count: Some(0),
        genre: Some("Ambient".to_string()),
        tag_list: Some("calm \"field recording\"".to_string()),
        raw_data: None,
    }
}

fn text<'a>(doc: &'a Json, name: &str) -> &'a str {
    doc.get(name).unwrap().as_str().unwrap()
}

fn fields(embed: &Json) -> Vec<(String, String, bool)> {
    match embed.get("fields").unwrap() {
        Json::Array(items) => items
            .iter()
            .map(|f| {
                let inline = matches!(f.get("inline").unwrap(), Json::Bool(true));
                (text(f, "name").to_string(), text(f, "value").to_string(), inline)
            })
            .collect(),
        _ => panic!("fields are an array"),
    }
}

#[test]
fn short_description_is_kept() {
    assert_eq!(truncate_description(""), "");
    assert_eq!(truncate_description("hello"), "hello");
    let exact = "a".repeat(MAX_DESCRIPTION_LENGTH);
    assert_eq!(truncate_description(&exact), exact);
}

#[test]
fn long_description_is_cut_and_marked() {
    let long = "a".repeat(2001);
    let sent = truncate_description(&long);
    assert_eq!(sent.len(), 2003);
    assert_eq!(sent, format!("{}...", "a".repeat(2000)));
    let longer = "xy".repeat(5000);
    assert_eq!(truncate_description(&longer), format!("{}...", "xy".repeat(1000)));
}

#[test]
fn description_is_cut_between_characters() {
    let long = format!("a{}", "é".repeat(1500));
    assert_eq!(long.len(), 3001);
    let sent = truncate_description(&long);
    assert_eq!(sent, format!("a{}...", "é".repeat(999)));
    assert_eq!(sent.len(), 2002);
    let wide = "\u{1F3B5}".repeat(501);
    let sent = truncate_description(&wide);
    assert_eq!(sent, format!("{}...", "\u{1F3B5}".repeat(500)));
    assert!(sent.len() <= 2003);
    let shifted = format!("ab{}", "\u{1F3B5}".repeat(501));
    let sent = truncate_description(&shifted);
    assert_eq!(sent, format!("ab{}...", "\u{1F3B5}".repeat(499)));
    assert_eq!(sent.len(), 2001);
}

#[test]
fn duration_is_minutes_and_seconds() {
    assert_eq!(format_duration(185_000), "3:05");
    assert_eq!(format_duration(59_999), "0:59");
    assert_eq!(format_duration(60_000), "1:00");
    assert_eq!(format_duration(999), "0:00");
    assert_eq!(format_duration(3_600_000), "60:00");
    assert_eq!(format_duration(754_321), "12:34");
}

#[test]
fn embed_presents_the_track() {
    let embed = build_track_embed(&track());
    assert_eq!(text(&embed, "title"), "Song");
    assert_eq!(text(&embed, "type"), "rich");
    assert_eq!(text(&embed, "description"), "About the song");
    assert_eq!(text(&embed, "url"), "https://soundcloud.com/u/song");
    assert_eq!(text(&embed, "timestamp"), "2024-01-02T03:04:05Z");
    assert_eq!(embed.get("color").unwrap().as_u64(), Some(0xFF7700));
    assert_eq!(EMBED_COLOR, 16742144);
    let author = embed.get("author").unwrap();
    assert_eq!(text(author, "name"), "User");
    assert_eq!(text(author, "url"), "https://soundcloud.com/u");
    assert_eq!(text(author, "icon_url"), "https://i1.sndcdn.com/avatar.jpg");
    assert_eq!(
        text(embed.get("thumbnail").unwrap(), "url"),
        "https://i1.sndcdn.com/art-original.jpg"
    );
    assert_eq!(
        text(embed.get("footer").unwrap(), "text"),
        "SoundCloud Archiver • All available audio formats are attached"
    );
    assert_eq!(
        fields(&embed),
        vec![
            ("Duration".to_string(), "3:05".to_string(), true),
            ("Genre".to_string(), "Ambient".to_string(), true),
            ("Tags".to_string(), "calm, field recording".to_string(), false),
        ]
    );
}

#[test]
fn embed_of_a_bare_track() {
    let mut bare = track();
    bare.description = None;
    bare.duration = 0;
    bare.artwork_url = None;
    bare.user.avatar_url = None;
    bare.genre = Some(String::new());
    bare.tag_list = Some("   ".to_string());
    let embed = build_track_embed(&bare);
    assert_eq!(text(&embed, "description"), "");
    assert_eq!(text(embed.get("author").unwrap(), "icon_url"), "");
    assert_eq!(text(embed.get("thumbnail").unwrap(), "url"), "");
    assert!(fields(&embed).is_empty());
    bare.genre = None;
    bare.tag_list = None;
    assert!(fields(&build_track_embed(&bare)).is_empty());
}

#[test]
fn embed_shortens_a_long_description() {
    let mut long = track();
    long.description = Some("d".repeat(2500));
    let embed = build_track_embed(&long);
    assert_eq!(text(&embed, "description"), format!("{}...", "d".repeat(2000)));
}

#[test]
fn raw_payload_takes_precedence() {
    let mut with_raw = track();
    with_raw.raw_data = Some(
        Json::parse(
            br#"{"playback_count": 7, "likes_count": "x", "comment_count": -1, "genre": "Techno", "tag_list": "a b"}"#,
        )
        .unwrap(),
    );
    let metadata = track_metadata(&with_raw);
    assert_eq!(metadata.play_count, Some(7));
    assert_eq!(metadata.likes_count, None);
    assert_eq!(metadata.reposts_count, None);
    assert_eq!(metadata.comment_count, None);
    assert_eq!(metadata.genre.as_deref(), Some("Techno"));
    assert_eq!(metadata.tags.as_deref(), Some("a b"));
    assert_eq!(
        fields(&build_track_embed(&with_raw)),
        vec![
            ("Duration".to_string(), "3:05".to_string(), true),
            ("Genre".to_string(), "Techno".to_string(), true),
            ("Tags".to_string(), "a, b".to_string(), false),
        ]
    );
    with_raw.raw_data = Some(Json::parse(b"{}").unwrap());
    let metadata = track_metadata(&with_raw);
    assert_eq!(metadata.play_count, None);
    assert_eq!(metadata.genre, None);
    assert_eq!(metadata.tags, None);
    assert_eq!(fields(&build_track_embed(&with_raw)).len(), 1);
}

#[test]
fn typed_fields_are_used_without_raw_payload() {
    let metadata = track_metadata(&track());
    assert_eq!(metadata.play_count, Some(10));
    assert_eq!(metadata.likes_count, Some(2));
    assert_eq!(metadata.reposts_count, None);
    assert_eq!(metadata.comment_count, Some(0));
    assert_eq!(metadata.genre.as_deref(), Some("Ambient"));
    assert_eq!(metadata.tags.as_deref(), Some("calm \"field recording\""));
}

#[test]
fn payload_wraps_the_embed() {
    let mut small = track();
    small.description = None;
    small.duration = 0;
    small.genre = None;
    small.tag_list = None;
    small.artwork_url = None;
    small.user.avatar_url = None;
    let payload = build_payload(build_track_embed(&small));
    assert_eq!(text(&payload, "username"), "SoundCloud Archiver");
    match payload.get("embeds").unwrap() {
        Json::Array(items) => {
            assert_eq!(items.len(), 1);
            assert_eq!(text(&items[0], "title"), "Song");
        }
        _ => panic!("embeds are an array"),
    }
    assert_eq!(
        payload.to_compact_text().unwrap(),
        "{\"embeds\":[{\"author\":{\"icon_url\":\"\",\"name\":\"User\",\"url\":\"https://soundcloud.com/u\"},\"color\":16742144,\"description\":\"\",\"fields\":[],\"footer\":{\"text\":\"SoundCloud Archiver • All available audio formats are attached\"},\"thumbnail\":{\"url\":\"\"},\"timestamp\":\"2024-01-02T03:04:05Z\",\"title\":\"Song\",\"type\":\"rich\",\"url\":\"https://soundcloud.com/u/song\"}],\"username\":\"SoundCloud Archiver\"}"
    );
}

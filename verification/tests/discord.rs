use soundcloud_archiver::attach::FileCandidate;
use soundcloud_archiver::discord::{
    has_char, plan_request, read_webhook_response, response_of_document, send_track_webhook,
    with_wait, RequestBody, WebhookError, WebhookResponse,
};
use soundcloud_archiver::embed::{Track, TrackUser};
use soundcloud_archiver::json::{Json, JsonError};

fn track() -> Track {
    Track {
        id: "100".to_string(),
        title: "Song".to_string(),
        description: None,
        permalink_url: "https://soundcloud.com/u/song".to_string(),
        created_at: "2024-01-02T03:04:05Z".to_string(),
        duration: 61_000,
        artwork_url: None,
        user: TrackUser {
            username: "User".to_string(),
            permalink_url: "https://soundcloud.com/u".to_string(),
            avatar_url: None,
        },
        playback_count: None,
        likes_count: None,
        reposts_count: None,
        comment_count: None,
        genre: None,
        tag_list: None,
        raw_data: None,
    }
}

fn file(name: &str, size: u64) -> FileCandidate {
    FileCandidate::new(format!("/tmp/{}", name), name.to_string(), size)
}

#[test]
fn wait_is_added_to_the_address() {
    assert_eq!(with_wait("https://d/api/webhooks/1/t"), "https://d/api/webhooks/1/t?wait=true");
    assert_eq!(
        with_wait("https://d/api/webhooks/1/t?thread_id=5"),
        "https://d/api/webhooks/1/t?thread_id=5&wait=true"
    );
    assert_eq!(with_wait(""), "?wait=true");
    assert_eq!(with_wait("x?"), "x?&wait=true");
}

#[test]
fn character_is_found_in_a_text() {
    assert!(has_char("a?b", '?'));
    assert!(has_char("?", '?'));
    assert!(!has_char("ab", '?'));
    assert!(!has_char("", '?'));
    assert!(has_char("héllo", 'é'));
}

#[test]
fn request_without_files_is_json() {
    for files in [None, Some(Vec::new())] {
        let request = send_track_webhook("https://hook", &track(), files).unwrap();
        assert_eq!(request.url, "https://hook?wait=true");
        match request.body {
            RequestBody::Json(text) => {
                let doc = Json::parse(text.as_bytes()).unwrap();
                assert_eq!(doc.get("username").unwrap().as_str(), Some("SoundCloud Archiver"));
                assert!(text.starts_with("{\"embeds\":[{"));
                assert!(text.contains("\"title\":\"Song\""));
                assert!(text.contains("\"value\":\"1:01\""));
            }
            _ => panic!("a JSON body was expected"),
        }
    }
}

#[test]
fn request_with_only_large_files_is_json() {
    let files = vec![file("a.ogg", 9 * 1024 * 1024)];
    let request = send_track_webhook("https://hook", &track(), Some(files)).unwrap();
    assert!(matches!(request.body, RequestBody::Json(_)));
}

#[test]
fn request_with_files_is_multipart() {
    let files = vec![file("a.mp3", 1024), file("b.m4a", 1024), file("c.ogg", 9 * 1024 * 1024)];
    let request = send_track_webhook("https://hook?x=1", &track(), Some(files)).unwrap();
    assert_eq!(request.url, "https://hook?x=1&wait=true");
    match request.body {
        RequestBody::Multipart { payload_json, files } => {
            assert!(payload_json.contains("\"username\":\"SoundCloud Archiver\""));
            assert_eq!(files.len(), 2);
            assert_eq!(files[0].field, "file0");
            assert_eq!(files[0].filename, "b.m4a");
            assert_eq!(files[0].mime, "audio/mp4");
            assert_eq!(files[0].path, "/tmp/b.m4a");
            assert_eq!(files[1].field, "file1");
            assert_eq!(files[1].filename, "a.mp3");
            assert_eq!(files[1].mime, "audio/mpeg");
        }
        _ => panic!("a multipart body was expected"),
    }
}

#[test]
fn request_is_planned_from_the_written_message() {
    let request = plan_request("u", Ok("{}".to_string()), &Vec::new()).unwrap();
    assert_eq!(request.url, "u?wait=true");
    assert!(matches!(request.body, RequestBody::Json(text) if text == "{}"));
    let request = plan_request("u", Ok("{}".to_string()), &vec![file("x.png", 1)]).unwrap();
    match request.body {
        RequestBody::Multipart { payload_json, files } => {
            assert_eq!(payload_json, "{}");
            assert_eq!(files.len(), 1);
            assert_eq!(files[0].mime, "image/png");
        }
        _ => panic!("a multipart body was expected"),
    }
    let failure = plan_request("u", Err(JsonError { message: "why".to_string() }), &Vec::new());
    assert!(matches!(failure, Err(WebhookError::Payload(reason)) if reason == "why"));
}

#[test]
fn answer_with_message_and_channel() {
    let response = read_webhook_response(200, r#"{"id": "m100", "channel_id": "c9", "type": 0}"#).unwrap();
    assert_eq!(response.message_id, "m100");
    assert_eq!(response.channel_id.as_deref(), Some("c9"));
    let copy: WebhookResponse = response.clone();
    assert_eq!(copy.message_id, "m100");
    assert_eq!(copy.channel_id.as_deref(), Some("c9"));
}

#[test]
fn answer_without_channel() {
    let response = read_webhook_response(204, r#"{"id": "m"}"#).unwrap();
    assert_eq!(response.message_id, "m");
    assert!(response.channel_id.is_none());
    let response = read_webhook_response(299, r#"{"id": "m", "channel_id": 5}"#).unwrap();
    assert!(response.channel_id.is_none());
}

#[test]
fn status_outside_success_is_an_error() {
    for status in [0u16, 199, 300, 404, 429, 500] {
        match read_webhook_response(status, r#"{"id": "m"}"#) {
            Err(WebhookError::Status { status: s, body }) => {
                assert_eq!(s, status);
                assert_eq!(body, r#"{"id": "m"}"#);
            }
            _ => panic!("status {} is an error", status),
        }
    }
}

#[test]
fn answer_without_usable_id_is_an_error() {
    assert!(matches!(read_webhook_response(200, "{}"), Err(WebhookError::MissingId)));
    assert!(matches!(read_webhook_response(200, "[]"), Err(WebhookError::MissingId)));
    assert!(matches!(read_webhook_response(200, "null"), Err(WebhookError::MissingId)));
    assert!(matches!(
        read_webhook_response(200, r#"{"channel_id": "c"}"#),
        Err(WebhookError::MissingId)
    ));
    assert!(matches!(read_webhook_response(200, r#"{"id": 5}"#), Err(WebhookError::IdNotText)));
    assert!(matches!(read_webhook_response(200, r#"{"id": null}"#), Err(WebhookError::IdNotText)));
    assert!(matches!(read_webhook_response(200, "not json"), Err(WebhookError::Malformed(_))));
    assert!(matches!(read_webhook_response(200, ""), Err(WebhookError::Malformed(_))));
}

#[test]
fn errors_in_words() {
    let status = WebhookError::Status { status: 404, body: "gone".to_string() };
    assert_eq!(status.message(), "Discord webhook error: 404 - gone");
    assert_eq!(WebhookError::MissingId.message(), "No message ID in Discord response");
    assert_eq!(
        WebhookError::IdNotText.message(),
        "Failed to extract message ID from Discord response"
    );
    assert!(WebhookError::Payload("x".to_string()).message().ends_with(": x"));
    assert!(WebhookError::Malformed("y".to_string()).message().ends_with(": y"));
}

#[test]
fn message_is_read_from_a_document() {
    let doc = Json::Object(vec![
        ("channel_id".to_string(), Json::Text("c".to_string())),
        ("id".to_string(), Json::Text("m".to_string())),
    ]);
    let response = response_of_document(&doc).unwrap();
    assert_eq!(response.message_id, "m");
    assert_eq!(response.channel_id.as_deref(), Some("c"));
    let doc = Json::Object(vec![("id".to_string(), Json::Unsigned(5))]);
    assert!(matches!(response_of_document(&doc), Err(WebhookError::IdNotText)));
    assert!(matches!(response_of_document(&Json::Null), Err(WebhookError::MissingId)));
    assert!(matches!(
        response_of_document(&Json::Text("id".to_string())),
        Err(WebhookError::MissingId)
    ));
}

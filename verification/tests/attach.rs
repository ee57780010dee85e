use soundcloud_archiver::attach::{
    file_parts, mime_type, select_attachments, sort_by_priority, take_accepted, tier_of,
    FileCandidate, MAX_ATTACHMENTS, MAX_DISCORD_UPLOAD_SIZE,
};

fn file(name: &str, size: u64) -> FileCandidate {
    FileCandidate::new(format!("/tmp/{}", name), name.to_string(), size)
}

fn names(files: &[FileCandidate]) -> Vec<String> {
    files.iter().map(|f| f.filename.clone()).collect()
}

const KB: u64 = 1024;
const MB: u64 = 1024 * 1024;

#[test]
fn limits_are_those_of_discord() {
    assert_eq!(MAX_DISCORD_UPLOAD_SIZE, 8 * 1024 * 1024);
    assert_eq!(MAX_ATTACHMENTS, 8);
}

#[test]
fn candidate_takes_the_extension_of_its_path() {
    let one = FileCandidate::new("/tmp/a.mp3".to_string(), "song".to_string(), 7);
    assert_eq!(one.path, "/tmp/a.mp3");
    assert_eq!(one.filename, "song");
    assert_eq!(one.size, 7);
    assert_eq!(one.extension.as_deref(), Some("mp3"));
    assert_eq!(file("archive.tar.gz", 1).extension.as_deref(), Some("gz"));
    assert_eq!(file("noext", 1).extension, None);
    assert_eq!(file(".hidden", 1).extension, None);
}

#[test]
fn attachments_follow_the_priority_rules() {
    let files = vec![
        file("a.mp3", KB),
        file("b.m4a", KB),
        file("c.ogg", 9 * MB),
        file("d.json", 100),
        file("e.png", 2 * MB),
        file("f.mp3", 500),
    ];
    let chosen = select_attachments(files);
    assert_eq!(names(&chosen), vec!["b.m4a", "d.json", "e.png", "f.mp3", "a.mp3"]);
}

#[test]
fn ranks_of_extensions() {
    let rank = |e: &str| tier_of(&Some(e.to_string()));
    assert_eq!(rank("m4a"), 1);
    assert_eq!(rank("ogg"), 1);
    assert_eq!(rank("opus"), 1);
    assert_eq!(rank("json"), 2);
    assert_eq!(rank("jpg"), 3);
    assert_eq!(rank("jpeg"), 3);
    assert_eq!(rank("png"), 3);
    assert_eq!(rank("mp3"), 4);
    assert_eq!(rank("M4A"), 4);
    assert_eq!(rank(""), 4);
    assert_eq!(tier_of(&None), 4);
}

#[test]
fn order_is_by_rank_then_size() {
    let files = vec![
        file("z.bin", 1),
        file("p.png", 5),
        file("j.json", 9),
        file("o.opus", 7),
        file("q.jpg", 3),
        file("m.m4a", 7),
        file("g.ogg", 2),
    ];
    let sorted = sort_by_priority(files);
    assert_eq!(
        names(&sorted),
        vec!["g.ogg", "o.opus", "m.m4a", "j.json", "q.jpg", "p.png", "z.bin"]
    );
}

#[test]
fn equal_files_keep_their_order() {
    let files = vec![file("1.mp3", 5), file("2.wav", 5), file("3", 5), file("4.mp3", 5)];
    assert_eq!(names(&sort_by_priority(files)), vec!["1.mp3", "2.wav", "3", "4.mp3"]);
}

#[test]
fn file_of_exactly_the_limit_is_taken() {
    let files = vec![file("a.ogg", MAX_DISCORD_UPLOAD_SIZE), file("b.ogg", MAX_DISCORD_UPLOAD_SIZE + 1)];
    assert_eq!(names(&select_attachments(files)), vec!["a.ogg"]);
}

#[test]
fn no_more_than_eight_files_are_taken() {
    let mut files = Vec::new();
    for i in 0..12u64 {
        files.push(file(&format!("{}.mp3", i), 100 - i));
    }
    let chosen = select_attachments(files);
    assert_eq!(chosen.len(), 8);
    assert_eq!(
        names(&chosen),
        vec!["11.mp3", "10.mp3", "9.mp3", "8.mp3", "7.mp3", "6.mp3", "5.mp3", "4.mp3"]
    );
}

#[test]
fn large_files_do_not_count_towards_the_eight() {
    let mut files = vec![file("big.m4a", 9 * MB)];
    for i in 0..8u64 {
        files.push(file(&format!("{}.mp3", i), i));
    }
    let taken = take_accepted(files);
    assert_eq!(names(&taken), vec!["0.mp3", "1.mp3", "2.mp3", "3.mp3", "4.mp3", "5.mp3", "6.mp3", "7.mp3"]);
}

#[test]
fn nothing_is_chosen_from_nothing() {
    assert!(select_attachments(Vec::new()).is_empty());
    assert!(select_attachments(vec![file("a.ogg", 100 * MB)]).is_empty());
}

#[test]
fn file_of_unknown_size_counts_as_empty() {
    let files = vec![file("a.ogg", 10), file("b.ogg", 0)];
    assert_eq!(names(&select_attachments(files)), vec!["b.ogg", "a.ogg"]);
}

#[test]
fn media_types_by_extension() {
    let mime = |e: &str| mime_type(&Some(e.to_string()));
    assert_eq!(mime("mp3"), "audio/mpeg");
    assert_eq!(mime("ogg"), "audio/ogg");
    assert_eq!(mime("opus"), "audio/opus");
    assert_eq!(mime("m4a"), "audio/mp4");
    assert_eq!(mime("json"), "application/json");
    assert_eq!(mime("jpg"), "image/jpeg");
    assert_eq!(mime("jpeg"), "image/jpeg");
    assert_eq!(mime("png"), "image/png");
    assert_eq!(mime("wav"), "application/octet-stream");
    assert_eq!(mime_type(&None), "application/octet-stream");
}

#[test]
fn parts_are_numbered_in_order() {
    let chosen = vec![file("b.m4a", 1), file("cover.png", 2), file("noext", 3)];
    let parts = file_parts(&chosen);
    assert_eq!(parts.len(), 3);
    assert_eq!(parts[0].field, "file0");
    assert_eq!(parts[0].filename, "b.m4a");
    assert_eq!(parts[0].mime, "audio/mp4");
    assert_eq!(parts[0].path, "/tmp/b.m4a");
    assert_eq!(parts[1].field, "file1");
    assert_eq!(parts[1].mime, "image/png");
    assert_eq!(parts[2].field, "file2");
    assert_eq!(parts[2].mime, "application/octet-stream");
    assert!(file_parts(&Vec::new()).is_empty());
}

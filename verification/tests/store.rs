use soundcloud_archiver::db::TrackDatabase;
use soundcloud_archiver::store::{
    begin_save, with_suffix, FileAction, FileOutcome, LoadProgress, LoadSession, SavePhase,
    SaveProgress, SaveSession,
};
use soundcloud_archiver::json::JsonError;
use std::collections::BTreeMap;

struct Disk {
    files: BTreeMap<String, Vec<u8>>,
    fail_writes: bool,
    fail_copies: bool,
    fail_removals: bool,
    fail_reads: bool,
    log: Vec<String>,
}

impl Disk {
    fn new() -> Disk {
        Disk {
            files: BTreeMap::new(),
            fail_writes: false,
            fail_copies: false,
            fail_removals: false,
            fail_reads: false,
            log: Vec::new(),
        }
    }

    fn with(path: &str, text: &str) -> Disk {
        let mut disk = Disk::new();
        disk.files.insert(path.to_string(), text.as_bytes().to_vec());
        disk
    }

    fn text(&self, path: &str) -> Option<String> {
        self.files.get(path).map(|bytes| String::from_utf8(bytes.clone()).unwrap())
    }

    fn perform(&mut self, action: &FileAction) -> FileOutcome {
        match action {
            FileAction::Probe { path } => {
                self.log.push(format!("probe {}", path));
                FileOutcome::Found(self.files.contains_key(path))
            }
            FileAction::Read { path } => {
                self.log.push(format!("read {}", path));
                if self.fail_reads {
                    return FileOutcome::Failed("read refused".to_string());
                }
                match self.files.get(path) {
                    Some(bytes) => FileOutcome::Content(bytes.clone()),
                    None => FileOutcome::Failed("no such file".to_string()),
                }
            }
            FileAction::Copy { from, to } => {
                self.log.push(format!("copy {} {}", from, to));
                if self.fail_copies {
                    return FileOutcome::Failed("copy refused".to_string());
                }
                match self.files.get(from).cloned() {
                    Some(bytes) => {
                        self.files.insert(to.clone(), bytes);
                        FileOutcome::Done
                    }
                    None => FileOutcome::Failed("no such file".to_string()),
                }
            }
            FileAction::Write { path, text } => {
                self.log.push(format!("write {}", path));
                if self.fail_writes {
                    self.files.insert(path.clone(), Vec::new());
                    return FileOutcome::Failed("disk full".to_string());
                }
                self.files.insert(path.clone(), text.as_bytes().to_vec());
                FileOutcome::Done
            }
            FileAction::Remove { path } => {
                self.log.push(format!("remove {}", path));
                if self.fail_removals {
                    return FileOutcome::Failed("removal refused".to_string());
                }
                self.files.remove(path);
                FileOutcome::Done
            }
        }
    }
}

fn run_save(disk: &mut Disk, mut session: SaveSession) -> Result<(), String> {
    for _ in 0..5 {
        let outcome = disk.perform(&session.action());
        match session.advance(&outcome) {
            SaveProgress::Continue(next) => session = next,
            SaveProgress::Finished(Ok(())) => return Ok(()),
            SaveProgress::Finished(Err(failure)) => return Err(failure.reason),
        }
    }
    panic!("a save asks for five actions at most");
}

fn run_load(disk: &mut Disk, path: &str) -> Result<TrackDatabase, String> {
    let mut session = TrackDatabase::load_or_create(path.to_string());
    for _ in 0..8 {
        let outcome = disk.perform(&session.action());
        match session.advance(&outcome) {
            LoadProgress::Continue(next) => session = next,
            LoadProgress::Finished(Ok(db)) => return Ok(db),
            LoadProgress::Finished(Err(failure)) => return Err(failure.reason),
        }
    }
    panic!("loading asks for eight actions at most");
}

fn ids(list: &[&str]) -> Vec<String> {
    list.iter().map(|s| s.to_string()).collect()
}

const EMPTY: &str = "{\n  \"tracks\": {}\n}";

#[test]
fn suffix_is_put_behind_the_path() {
    assert_eq!(with_suffix("db.json", ".bak"), "db.json.bak");
    assert_eq!(with_suffix("", ".bak"), ".bak");
}

#[test]
fn save_to_a_new_file_writes_it() {
    let mut disk = Disk::new();
    let session = SaveSession::begin("db.json".to_string(), "text".to_string());
    assert_eq!(session.phase, SavePhase::ProbeTarget);
    assert_eq!(run_save(&mut disk, session), Ok(()));
    assert_eq!(disk.text("db.json").as_deref(), Some("text"));
    assert_eq!(disk.files.len(), 1);
    assert_eq!(disk.log, vec!["probe db.json", "write db.json", "probe db.json.bak"]);
}

#[test]
fn save_over_a_file_backs_it_up_and_removes_the_backup() {
    let mut disk = Disk::with("db.json", "old");
    let session = SaveSession::begin("db.json".to_string(), "new".to_string());
    assert_eq!(run_save(&mut disk, session), Ok(()));
    assert_eq!(disk.text("db.json").as_deref(), Some("new"));
    assert!(disk.text("db.json.bak").is_none());
    assert_eq!(
        disk.log,
        vec![
            "probe db.json",
            "copy db.json db.json.bak",
            "write db.json",
            "probe db.json.bak",
            "remove db.json.bak"
        ]
    );
}

#[test]
fn failed_write_restores_the_backup() {
    let mut disk = Disk::with("db.json", "old");
    disk.fail_writes = true;
    let session = SaveSession::begin("db.json".to_string(), "new".to_string());
    assert_eq!(run_save(&mut disk, session), Err("disk full".to_string()));
    assert_eq!(disk.text("db.json").as_deref(), Some("old"));
    assert_eq!(disk.text("db.json.bak").as_deref(), Some("old"));
    assert_eq!(
        disk.log,
        vec![
            "probe db.json",
            "copy db.json db.json.bak",
            "write db.json",
            "probe db.json.bak",
            "copy db.json.bak db.json"
        ]
    );
}

#[test]
fn failed_write_without_backup_fails_with_its_reason() {
    let mut disk = Disk::new();
    disk.fail_writes = true;
    let session = SaveSession::begin("db.json".to_string(), "new".to_string());
    assert_eq!(run_save(&mut disk, session), Err("disk full".to_string()));
    assert_eq!(disk.log, vec!["probe db.json", "write db.json", "probe db.json.bak"]);
}

#[test]
fn failed_backup_does_not_stop_the_save() {
    let mut disk = Disk::with("db.json", "old");
    disk.fail_copies = true;
    let session = SaveSession::begin("db.json".to_string(), "new".to_string());
    assert_eq!(run_save(&mut disk, session), Ok(()));
    assert_eq!(disk.text("db.json").as_deref(), Some("new"));
}

#[test]
fn failed_removal_of_the_backup_is_no_error() {
    let mut disk = Disk::with("db.json", "old");
    disk.fail_removals = true;
    let session = SaveSession::begin("db.json".to_string(), "new".to_string());
    assert_eq!(run_save(&mut disk, session), Ok(()));
    assert_eq!(disk.text("db.json").as_deref(), Some("new"));
    assert_eq!(disk.text("db.json.bak").as_deref(), Some("old"));
}

#[test]
fn failed_restore_keeps_the_reason_of_the_write() {
    let mut disk = Disk::with("db.json", "old");
    let mut session = SaveSession::begin("db.json".to_string(), "new".to_string());
    let outcomes = [
        FileOutcome::Found(true),
        FileOutcome::Done,
        FileOutcome::Failed("disk full".to_string()),
        FileOutcome::Found(true),
        FileOutcome::Failed("copy refused".to_string()),
    ];
    let mut result = None;
    for outcome in outcomes.iter() {
        match session.advance(outcome) {
            SaveProgress::Continue(next) => session = next,
            SaveProgress::Finished(end) => {
                result = Some(end.map_err(|failure| failure.reason));
                break;
            }
        }
        session = SaveSession { ..session };
    }
    assert_eq!(result, Some(Err("disk full".to_string())));
    disk.fail_copies = true;
    assert!(disk.text("db.json").is_some());
}

#[test]
fn save_starts_with_the_text_or_fails_with_the_reason() {
    let session = begin_save("p", Ok("t".to_string())).unwrap();
    assert_eq!(session.path, "p");
    assert_eq!(session.text, "t");
    assert_eq!(session.phase, SavePhase::ProbeTarget);
    assert_eq!(session.reason, "");
    let failure = begin_save("p", Err(JsonError { message: "why".to_string() })).unwrap_err();
    assert_eq!(failure.reason, "why");
}

#[test]
fn catalog_save_writes_its_document() {
    let mut db = TrackDatabase::new("db.json".to_string());
    db.add_tracks(&ids(&["1"]));
    let mut disk = Disk::new();
    assert_eq!(run_save(&mut disk, db.save().unwrap()), Ok(()));
    assert_eq!(disk.text("db.json").as_deref(), Some("{\n  \"tracks\": {\n    \"1\": null\n  }\n}"));
    let mut disk = Disk::new();
    assert_eq!(run_save(&mut disk, db.shutdown().unwrap()), Ok(()));
    assert_eq!(disk.text("db.json").as_deref(), Some("{\n  \"tracks\": {\n    \"1\": null\n  }\n}"));
}

#[test]
fn initialize_records_all_and_saves() {
    let mut db = TrackDatabase::new("db.json".to_string());
    db.add_track_with_discord_info("2", "m2".to_string(), None, None);
    let session = db.initialize_with_tracks(&ids(&["1", "2", "3"])).unwrap();
    assert_eq!(db.get_all_tracks(), ids(&["2", "1", "3"]));
    assert!(db.get_discord_info("2").is_none());
    let mut disk = Disk::new();
    assert_eq!(run_save(&mut disk, session), Ok(()));
    assert_eq!(
        disk.text("db.json").as_deref(),
        Some("{\n  \"tracks\": {\n    \"1\": null,\n    \"2\": null,\n    \"3\": null\n  }\n}")
    );
}

#[test]
fn add_and_save_saves_only_what_is_new() {
    let mut db = TrackDatabase::new("db.json".to_string());
    let (added, save) = db.add_tracks_and_save(&ids(&["1", "2"])).unwrap();
    assert_eq!(added, ids(&["1", "2"]));
    let mut disk = Disk::new();
    assert_eq!(run_save(&mut disk, save.unwrap()), Ok(()));
    assert!(disk.text("db.json").unwrap().contains("\"2\": null"));
    let (added, save) = db.add_tracks_and_save(&ids(&["2", "1"])).unwrap();
    assert!(added.is_empty());
    assert!(save.is_none());
}

#[test]
fn cold_start_creates_an_empty_file() {
    let mut disk = Disk::new();
    let db = run_load(&mut disk, "db.json").unwrap();
    assert_eq!(db.len(), 0);
    assert_eq!(db.db_path, "db.json");
    assert_eq!(disk.text("db.json").as_deref(), Some(EMPTY));
    assert_eq!(disk.files.len(), 1);
}

#[test]
fn cold_start_fails_where_the_file_cannot_be_written() {
    let mut disk = Disk::new();
    disk.fail_writes = true;
    assert_eq!(run_load(&mut disk, "db.json").err(), Some("disk full".to_string()));
}

#[test]
fn current_file_is_loaded_without_writing() {
    let text = r#"{"tracks": {"1": null, "2": {"id": "m2", "channel_id": "c", "user_id": "u"}}}"#;
    let mut disk = Disk::with("db.json", text);
    let db = run_load(&mut disk, "db.json").unwrap();
    assert_eq!(db.len(), 2);
    assert!(db.has_track("1"));
    assert_eq!(db.get_discord_info("2").unwrap().id, "m2");
    assert_eq!(disk.text("db.json").as_deref(), Some(text));
    assert_eq!(disk.log, vec!["probe db.json", "read db.json"]);
}

#[test]
fn saved_catalog_is_loaded_again() {
    let mut db = TrackDatabase::new("db.json".to_string());
    db.add_tracks(&ids(&["9", "10"]));
    db.add_track_with_discord_info(
        "11",
        "m11".to_string(),
        Some("c".to_string()),
        Some("u".to_string()),
    );
    db.add_track_with_discord_info("12", "m12".to_string(), None, None);
    let mut disk = Disk::new();
    assert_eq!(run_save(&mut disk, db.save().unwrap()), Ok(()));
    let back = run_load(&mut disk, "db.json").unwrap();
    let mut before = db.get_all_tracks();
    let mut after = back.get_all_tracks();
    before.sort();
    after.sort();
    assert_eq!(before, after);
    for id in before {
        let (x, y) = (db.get_discord_info(&id), back.get_discord_info(&id));
        assert_eq!(x.is_some(), y.is_some());
        if let (Some(x), Some(y)) = (x, y) {
            assert_eq!((x.id, x.channel_id, x.user_id), (y.id, y.channel_id, y.user_id));
        }
    }
}

#[test]
fn legacy_file_is_migrated() {
    let original = r#"{"tracks":[1,2,"3"]}"#;
    let mut disk = Disk::with("db.json", original);
    let db = run_load(&mut disk, "db.json").unwrap();
    assert!(db.has_track("1") && db.has_track("2") && db.has_track("3"));
    assert_eq!(db.len(), 3);
    for id in ["1", "2", "3"] {
        assert!(db.get_discord_info(id).is_none());
    }
    assert_eq!(disk.text("db.json.old_format.bak").as_deref(), Some(original));
    assert_eq!(
        disk.text("db.json").as_deref(),
        Some("{\n  \"tracks\": {\n    \"1\": null,\n    \"2\": null,\n    \"3\": null\n  }\n}")
    );
    assert!(disk.text("db.json.bak").is_none());
}

#[test]
fn legacy_file_with_strings_is_migrated() {
    let original = r#"{ "tracks": ["1", 2, "3"] }"#;
    let mut disk = Disk::with("db.json", original);
    let db = run_load(&mut disk, "db.json").unwrap();
    assert_eq!(db.get_all_tracks(), ids(&["1", "2", "3"]));
    assert_eq!(disk.files.get("db.json.old_format.bak").unwrap().as_slice(), original.as_bytes());
    let again = run_load(&mut disk, "db.json").unwrap();
    let mut tracks = again.get_all_tracks();
    tracks.sort();
    assert_eq!(tracks, ids(&["1", "2", "3"]));
}

#[test]
fn legacy_migration_goes_on_without_the_copy() {
    let mut disk = Disk::with("db.json", r#"{"tracks":["a"]}"#);
    disk.fail_copies = true;
    let db = run_load(&mut disk, "db.json").unwrap();
    assert!(db.has_track("a"));
    assert!(disk.text("db.json.old_format.bak").is_none());
    assert_eq!(disk.text("db.json").as_deref(), Some("{\n  \"tracks\": {\n    \"a\": null\n  }\n}"));
}

#[test]
fn legacy_file_that_cannot_be_saved_fails_loading() {
    let original = r#"{"tracks":["a"]}"#;
    let mut disk = Disk::with("db.json", original);
    disk.fail_writes = true;
    assert_eq!(run_load(&mut disk, "db.json").err(), Some("disk full".to_string()));
    assert_eq!(disk.text("db.json.old_format.bak").as_deref(), Some(original));
    assert_eq!(disk.text("db.json").as_deref(), Some(original));
    assert!(disk.text("db.json.corrupted.bak").is_none());
}

#[test]
fn corrupted_file_that_cannot_be_replaced_fails_loading() {
    let mut disk = Disk::with("db.json", "not json");
    disk.fail_writes = true;
    assert_eq!(run_load(&mut disk, "db.json").err(), Some("disk full".to_string()));
    assert_eq!(disk.text("db.json.corrupted.bak").as_deref(), Some("not json"));
}

#[test]
fn corrupted_file_is_copied_and_replaced() {
    for text in ["not json", "{\"tracks\": 5}", "[1, 2]", ""] {
        let mut disk = Disk::with("db.json", text);
        let db = run_load(&mut disk, "db.json").unwrap();
        assert_eq!(db.len(), 0);
        assert_eq!(disk.text("db.json.corrupted.bak").as_deref(), Some(text));
        assert_eq!(disk.text("db.json").as_deref(), Some(EMPTY));
    }
}

#[test]
fn file_that_is_not_text_is_corrupted() {
    let mut disk = Disk::new();
    disk.files.insert("db.json".to_string(), vec![0xff, 0x00, 0x80]);
    let db = run_load(&mut disk, "db.json").unwrap();
    assert_eq!(db.len(), 0);
    assert_eq!(disk.files.get("db.json.corrupted.bak").unwrap(), &vec![0xff, 0x00, 0x80]);
}

#[test]
fn file_that_cannot_be_read_is_copied_and_replaced() {
    let kept = r#"{"tracks": {"1": null}}"#;
    let mut disk = Disk::with("db.json", kept);
    disk.fail_reads = true;
    let db = run_load(&mut disk, "db.json").unwrap();
    assert_eq!(db.len(), 0);
    assert_eq!(disk.text("db.json.corrupted.bak").as_deref(), Some(kept));
    assert_eq!(disk.text("db.json").as_deref(), Some(EMPTY));
}

#[test]
fn legacy_file_with_an_integer_below_zero_is_migrated() {
    let mut disk = Disk::with("db.json", r#"{"tracks":[-5]}"#);
    let db = run_load(&mut disk, "db.json").unwrap();
    assert!(db.has_track("-5"));
    assert!(db.get_discord_info("-5").is_none());
    assert_eq!(db.len(), 1);
    assert_eq!(disk.text("db.json").as_deref(), Some("{\n  \"tracks\": {\n    \"-5\": null\n  }\n}"));
}

#[test]
fn load_session_names_its_actions() {
    let session = LoadSession::begin("db.json".to_string());
    assert!(matches!(session.action(), FileAction::Probe { path } if path == "db.json"));
    let next = match session.advance(&FileOutcome::Found(true)) {
        LoadProgress::Continue(next) => next,
        _ => panic!("loading goes on"),
    };
    assert!(matches!(next.action(), FileAction::Read { path } if path == "db.json"));
    let progress = LoadSession::read("db.json".to_string(), b"{\"tracks\": [7]}");
    match progress {
        LoadProgress::Continue(LoadSession::BackUpLegacy { db }) => {
            assert!(db.has_track("7"));
        }
        _ => panic!("a legacy file is backed up"),
    }
}

#[test]
fn outcome_answers() {
    assert!(FileOutcome::Found(true).found());
    assert!(!FileOutcome::Found(false).found());
    assert!(!FileOutcome::Done.found());
    assert_eq!(FileOutcome::Failed("why".to_string()).reason(), "why");
    assert_eq!(FileOutcome::Done.reason(), "");
    assert_eq!(FileOutcome::Content(vec![1]).reason(), "");
}

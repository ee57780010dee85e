use soundcloud_archiver::bulk::{BulkAction, BulkEvent, BulkProgress};
use soundcloud_archiver::db::TrackDatabase;
use soundcloud_archiver::store::{FileAction, FileOutcome};
use std::collections::BTreeMap;

fn ids(list: &[&str]) -> Vec<String> {
    list.iter().map(|s| s.to_string()).collect()
}

struct World {
    uploads: BTreeMap<String, Result<Vec<String>, String>>,
    likes: BTreeMap<String, Result<Vec<String>, String>>,
    files: BTreeMap<String, String>,
    fail_writes_for: Option<String>,
    current: String,
    fetches: Vec<(String, bool)>,
}

impl World {
    fn new() -> World {
        World {
            uploads: BTreeMap::new(),
            likes: BTreeMap::new(),
            files: BTreeMap::new(),
            fail_writes_for: None,
            current: String::new(),
            fetches: Vec::new(),
        }
    }

    fn perform(&mut self, action: BulkAction) -> BulkEvent {
        match action {
            BulkAction::Fetch { user_id, with_likes } => {
                self.fetches.push((user_id.clone(), with_likes));
                self.current = user_id.clone();
                let uploads =
                    self.uploads.get(&user_id).cloned().unwrap_or(Err("unknown user".to_string()));
                let likes = if with_likes && uploads.is_ok() {
                    Some(self.likes.get(&user_id).cloned().unwrap_or(Ok(Vec::new())))
                } else {
                    None
                };
                BulkEvent::Fetched { uploads, likes }
            }
            BulkAction::File(action) => BulkEvent::File(match action {
                FileAction::Probe { path } => FileOutcome::Found(self.files.contains_key(&path)),
                FileAction::Read { path } => match self.files.get(&path) {
                    Some(text) => FileOutcome::Content(text.as_bytes().to_vec()),
                    None => FileOutcome::Failed("no such file".to_string()),
                },
                FileAction::Copy { from, to } => match self.files.get(&from).cloned() {
                    Some(text) => {
                        self.files.insert(to, text);
                        FileOutcome::Done
                    }
                    None => FileOutcome::Failed("no such file".to_string()),
                },
                FileAction::Write { path, text } => {
                    if self.fail_writes_for.as_deref() == Some(self.current.as_str()) {
                        FileOutcome::Failed("disk full".to_string())
                    } else {
                        self.files.insert(path, text);
                        FileOutcome::Done
                    }
                }
                FileAction::Remove { path } => {
                    self.files.remove(&path);
                    FileOutcome::Done
                }
            }),
        }
    }

    fn run(&mut self, db: TrackDatabase, users: &[&str], likes: bool) -> (TrackDatabase, usize, usize) {
        let mut progress = db.initialize_with_tracks_from_users(ids(users), likes);
        loop {
            match progress {
                BulkProgress::Finished { db, users_processed, tracks_added } => {
                    return (db, users_processed, tracks_added);
                }
                BulkProgress::Continue(state) => {
                    let event = self.perform(state.action());
                    progress = state.advance(event);
                }
            }
        }
    }
}

#[test]
fn no_users_nothing_to_do() {
    let mut world = World::new();
    let (db, users, tracks) = world.run(TrackDatabase::new("db.json".to_string()), &[], true);
    assert_eq!((users, tracks), (0, 0));
    assert_eq!(db.len(), 0);
    assert!(world.fetches.is_empty());
    assert!(world.files.is_empty());
}

#[test]
fn tracks_of_all_users_are_recorded() {
    let mut world = World::new();
    world.uploads.insert("u1".to_string(), Ok(ids(&["1", "2"])));
    world.uploads.insert("u2".to_string(), Ok(ids(&["2", "3"])));
    world.likes.insert("u1".to_string(), Ok(ids(&["9"])));
    let (db, users, tracks) = world.run(TrackDatabase::new("db.json".to_string()), &["u1", "u2"], true);
    assert_eq!((users, tracks), (2, 4));
    assert_eq!(db.get_all_tracks(), ids(&["1", "2", "9", "3"]));
    assert_eq!(world.fetches, vec![("u1".to_string(), true), ("u2".to_string(), true)]);
    let text = world.files.get("db.json").unwrap();
    for id in ["1", "2", "3", "9"] {
        assert!(text.contains(&format!("\"{}\": null", id)));
    }
    assert!(world.files.get("db.json.bak").is_none());
}

#[test]
fn likes_are_not_asked_for_unless_wanted() {
    let mut world = World::new();
    world.uploads.insert("u1".to_string(), Ok(ids(&["1"])));
    world.likes.insert("u1".to_string(), Ok(ids(&["9"])));
    let (db, users, tracks) = world.run(TrackDatabase::new("db.json".to_string()), &["u1"], false);
    assert_eq!((users, tracks), (1, 1));
    assert!(!db.has_track("9"));
    assert_eq!(world.fetches, vec![("u1".to_string(), false)]);
}

#[test]
fn user_without_uploads_is_skipped() {
    let mut world = World::new();
    world.uploads.insert("u1".to_string(), Err("down".to_string()));
    world.uploads.insert("u2".to_string(), Ok(ids(&["5"])));
    let (db, users, tracks) = world.run(TrackDatabase::new("db.json".to_string()), &["u1", "u2"], true);
    assert_eq!((users, tracks), (1, 1));
    assert_eq!(db.get_all_tracks(), ids(&["5"]));
}

#[test]
fn failed_likes_are_passed_over() {
    let mut world = World::new();
    world.uploads.insert("u1".to_string(), Ok(ids(&["1"])));
    world.likes.insert("u1".to_string(), Err("down".to_string()));
    let (db, users, tracks) = world.run(TrackDatabase::new("db.json".to_string()), &["u1"], true);
    assert_eq!((users, tracks), (1, 1));
    assert_eq!(db.get_all_tracks(), ids(&["1"]));
}

#[test]
fn user_whose_save_fails_is_not_counted() {
    let mut world = World::new();
    world.uploads.insert("u1".to_string(), Ok(ids(&["1", "2"])));
    world.uploads.insert("u2".to_string(), Ok(ids(&["3"])));
    world.fail_writes_for = Some("u1".to_string());
    let (db, users, tracks) = world.run(TrackDatabase::new("db.json".to_string()), &["u1", "u2"], false);
    assert_eq!((users, tracks), (1, 1));
    assert_eq!(db.get_all_tracks(), ids(&["1", "2", "3"]));
}

#[test]
fn known_tracks_are_not_counted_and_lose_their_post() {
    let mut db = TrackDatabase::new("db.json".to_string());
    db.add_track_with_discord_info("1", "m1".to_string(), None, None);
    let mut world = World::new();
    world.uploads.insert("u1".to_string(), Ok(ids(&["1", "2", "2"])));
    let (db, users, tracks) = world.run(db, &["u1"], false);
    assert_eq!((users, tracks), (1, 1));
    assert_eq!(db.get_all_tracks(), ids(&["1", "2"]));
    assert!(db.get_discord_info("1").is_none());
}

#[test]
fn event_that_answers_nothing_changes_nothing() {
    let db = TrackDatabase::new("db.json".to_string());
    let progress = db.initialize_with_tracks_from_users(ids(&["u1"]), false);
    let state = match progress {
        BulkProgress::Continue(state) => state,
        _ => panic!("there is a user to handle"),
    };
    let state = match state.advance(BulkEvent::File(FileOutcome::Done)) {
        BulkProgress::Continue(state) => state,
        _ => panic!("the fetch is still awaited"),
    };
    assert!(matches!(
        state.action(),
        BulkAction::Fetch { user_id, with_likes: false } if user_id == "u1"
    ));
}

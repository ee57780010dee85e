//! Saving and loading the catalog file, as steps that the caller performs.
//!
//! Nothing here touches the file system. A session hands out one action at a
//! time; the caller performs it and reports what came of it, and the session
//! decides what is next.

use crate::db::{unseen, PostView, TrackDatabase};
use crate::document::{current_posts, document_tree, legacy_catalog, legacy_items, Format};
use crate::json::{bytes_tree, pretty_text, Json, JsonError};
use vstd::prelude::*;
use vstd::string::StringExecFns;

verus! {

/// Something for the caller to do with the file system.
#[derive(Debug)]
pub enum FileAction {
    /// Find out whether a file exists at `path`.
    Probe { path: String },
    /// Read the whole file at `path`.
    Read { path: String },
    /// Copy the file at `from` to `to`, replacing what is there.
    Copy { from: String, to: String },
    /// Create or truncate the file at `path` and write `text` to it.
    Write { path: String, text: String },
    /// Delete the file at `path`.
    Remove { path: String },
}

/// The mathematical value of a `FileAction`.
pub enum ActionView {
    Probe { path: Seq<char> },
    Read { path: Seq<char> },
    Copy { from: Seq<char>, to: Seq<char> },
    Write { path: Seq<char>, text: Seq<char> },
    Remove { path: Seq<char> },
}

impl View for FileAction {
    type V = ActionView;

    open spec fn view(&self) -> ActionView {
        match self {
            FileAction::Probe { path } => ActionView::Probe { path: path@ },
            FileAction::Read { path } => ActionView::Read { path: path@ },
            FileAction::Copy { from, to } => ActionView::Copy { from: from@, to: to@ },
            FileAction::Write { path, text } => ActionView::Write { path: path@, text: text@ },
            FileAction::Remove { path } => ActionView::Remove { path: path@ },
        }
    }
}

/// What came of an action.
#[derive(Debug)]
pub enum FileOutcome {
    /// The answer to `Probe`.
    Found(bool),
    /// The answer to `Read`: the bytes of the file.
    Content(Vec<u8>),
    /// A `Copy`, `Write` or `Remove` was carried out.
    Done,
    /// The action failed, with the reason.
    Failed(String),
}

/// The mathematical value of a `FileOutcome`.
pub enum OutcomeView {
    Found(bool),
    Content(Seq<u8>),
    Done,
    Failed(Seq<char>),
}

impl View for FileOutcome {
    type V = OutcomeView;

    open spec fn view(&self) -> OutcomeView {
        match self {
            FileOutcome::Found(found) => OutcomeView::Found(*found),
            FileOutcome::Content(bytes) => OutcomeView::Content(bytes@),
            FileOutcome::Done => OutcomeView::Done,
            FileOutcome::Failed(reason) => OutcomeView::Failed(reason@),
        }
    }
}

impl OutcomeView {
    /// Whether the outcome says that the file exists.
    pub open spec fn found(self) -> bool {
        self == OutcomeView::Found(true)
    }

    /// The reason of a failure; empty for an outcome that gives none.
    pub open spec fn reason(self) -> Seq<char> {
        match self {
            OutcomeView::Failed(reason) => reason,
            _ => Seq::empty(),
        }
    }
}

impl FileOutcome {
    /// Whether the outcome says that the file exists.
    pub fn found(&self) -> (r: bool)
        ensures
            r == self@.found(),
    {
        match self {
            FileOutcome::Found(found) => *found,
            _ => false,
        }
    }

    /// The reason of a failure; empty for an outcome that gives none.
    pub fn reason(&self) -> (r: String)
        ensures
            r@ == self@.reason(),
    {
        match self {
            FileOutcome::Failed(reason) => reason.clone(),
            _ => String::new(),
        }
    }
}

/// The path of the backup that a save keeps while it writes.
pub open spec fn backup_path(path: Seq<char>) -> Seq<char> {
    path + ".bak"@
}

/// `path` with `suffix` behind it.
pub fn with_suffix(path: &str, suffix: &str) -> (r: String)
    ensures
        r@ == path@ + suffix@,
{
    let mut r = path.to_owned();
    r.append(suffix);
    r
}

/// Where a save stands: what it has asked for and waits to hear of.
#[derive(Clone, Copy, Debug, PartialEq, Eq, Structural)]
pub enum SavePhase {
    /// Whether the catalog file exists.
    ProbeTarget,
    /// The copy of the catalog file to the backup.
    BackUp,
    /// The writing of the catalog file.
    Write,
    /// Whether a backup exists, after the file was written.
    ProbeBackup,
    /// The removal of the backup.
    RemoveBackup,
    /// Whether a backup exists, after writing failed.
    ProbeBackupToRestore,
    /// The copy of the backup back to the catalog file.
    Restore,
}

/// A save of the catalog file in progress.
#[derive(Debug)]
pub struct SaveSession {
    /// The path of the catalog file.
    pub path: String,
    /// The text to be written.
    pub text: String,
    /// What the session waits to hear of.
    pub phase: SavePhase,
    /// Why writing failed; empty as long as it has not.
    pub reason: String,
}

/// The mathematical value of a `SaveSession`.
pub struct SaveView {
    pub path: Seq<char>,
    pub text: Seq<char>,
    pub phase: SavePhase,
    pub reason: Seq<char>,
}

impl View for SaveSession {
    type V = SaveView;

    open spec fn view(&self) -> SaveView {
        SaveView { path: self.path@, text: self.text@, phase: self.phase, reason: self.reason@ }
    }
}

/// A save did not succeed.
#[derive(Debug)]
pub struct SaveFailed {
    /// What the caller reported when writing failed, or why the catalog
    /// could not be written as text.
    pub reason: String,
}

/// What a save has come to after an outcome.
#[derive(Debug)]
pub enum SaveProgress {
    /// There is another action to perform.
    Continue(SaveSession),
    /// The save is over.
    Finished(Result<(), SaveFailed>),
}

/// The mathematical value of a `SaveProgress`.
pub enum SaveProgressView {
    Continue(SaveView),
    Saved,
    Failed(Seq<char>),
}

impl View for SaveProgress {
    type V = SaveProgressView;

    open spec fn view(&self) -> SaveProgressView {
        match self {
            SaveProgress::Continue(session) => SaveProgressView::Continue(session@),
            SaveProgress::Finished(Ok(_)) => SaveProgressView::Saved,
            SaveProgress::Finished(Err(failure)) => SaveProgressView::Failed(failure.reason@),
        }
    }
}

impl SaveView {
    /// A save of `text` to `path`, at its start.
    pub open spec fn begin(path: Seq<char>, text: Seq<char>) -> SaveView {
        SaveView { path, text, phase: SavePhase::ProbeTarget, reason: Seq::empty() }
    }

    /// The session in another phase.
    pub open spec fn at(self, phase: SavePhase) -> SaveView {
        SaveView { phase, ..self }
    }

    /// The action that the session waits to hear of.
    pub open spec fn action(self) -> ActionView {
        match self.phase {
            SavePhase::ProbeTarget => ActionView::Probe { path: self.path },
            SavePhase::BackUp => ActionView::Copy { from: self.path, to: backup_path(self.path) },
            SavePhase::Write => ActionView::Write { path: self.path, text: self.text },
            SavePhase::ProbeBackup => ActionView::Probe { path: backup_path(self.path) },
            SavePhase::RemoveBackup => ActionView::Remove { path: backup_path(self.path) },
            SavePhase::ProbeBackupToRestore => ActionView::Probe { path: backup_path(self.path) },
            SavePhase::Restore => ActionView::Copy { from: backup_path(self.path), to: self.path },
        }
    }

    /// What the save comes to when `outcome` is reported for its action.
    ///
    /// An existing file is backed up first, and the file is written whether
    /// or not that copy succeeded. After the file was written a backup is
    /// removed, and the save has succeeded whatever comes of the removal.
    /// After writing failed a backup is copied back, and the save has failed
    /// with the reason of the write, whatever comes of the copy.
    pub open spec fn advance(self, outcome: OutcomeView) -> SaveProgressView {
        match self.phase {
            SavePhase::ProbeTarget => if outcome.found() {
                SaveProgressView::Continue(self.at(SavePhase::BackUp))
            } else {
                SaveProgressView::Continue(self.at(SavePhase::Write))
            },
            SavePhase::BackUp => SaveProgressView::Continue(self.at(SavePhase::Write)),
            SavePhase::Write => if outcome is Done {
                SaveProgressView::Continue(self.at(SavePhase::ProbeBackup))
            } else {
                SaveProgressView::Continue(
                    SaveView {
                        phase: SavePhase::ProbeBackupToRestore,
                        reason: outcome.reason(),
                        ..self
                    },
                )
            },
            SavePhase::ProbeBackup => if outcome.found() {
                SaveProgressView::Continue(self.at(SavePhase::RemoveBackup))
            } else {
                SaveProgressView::Saved
            },
            SavePhase::RemoveBackup => SaveProgressView::Saved,
            SavePhase::ProbeBackupToRestore => if outcome.found() {
                SaveProgressView::Continue(self.at(SavePhase::Restore))
            } else {
                SaveProgressView::Failed(self.reason)
            },
            SavePhase::Restore => SaveProgressView::Failed(self.reason),
        }
    }

    /// How many actions the save may still ask for, at most.
    pub open spec fn actions_left(self) -> nat {
        match self.phase {
            SavePhase::ProbeTarget => 5,
            SavePhase::BackUp => 4,
            SavePhase::Write => 3,
            SavePhase::ProbeBackup => 2,
            SavePhase::ProbeBackupToRestore => 2,
            SavePhase::RemoveBackup => 1,
            SavePhase::Restore => 1,
        }
    }

    /// What the save comes to when `outcomes` are reported one after the
    /// other; outcomes after its end are passed over.
    pub open spec fn run(self, outcomes: Seq<OutcomeView>) -> SaveProgressView
        decreases outcomes.len(),
    {
        if outcomes.len() == 0 {
            SaveProgressView::Continue(self)
        } else {
            match self.advance(outcomes[0]) {
                SaveProgressView::Continue(next) => next.run(outcomes.drop_first()),
                over => over,
            }
        }
    }
}

impl SaveSession {
    /// A save of `text` to the file at `path`.
    pub fn begin(path: String, text: String) -> (session: SaveSession)
        ensures
            session@ == SaveView::begin(path@, text@),
    {
        SaveSession { path, text, phase: SavePhase::ProbeTarget, reason: String::new() }
    }

    /// The action that the session waits to hear of.
    pub fn action(&self) -> (action: FileAction)
        ensures
            action@ == self@.action(),
    {
        match self.phase {
            SavePhase::ProbeTarget => FileAction::Probe { path: self.path.clone() },
            SavePhase::BackUp => FileAction::Copy {
                from: self.path.clone(),
                to: with_suffix(self.path.as_str(), ".bak"),
            },
            SavePhase::Write => FileAction::Write {
                path: self.path.clone(),
                text: self.text.clone(),
            },
            SavePhase::ProbeBackup => FileAction::Probe {
                path: with_suffix(self.path.as_str(), ".bak"),
            },
            SavePhase::RemoveBackup => FileAction::Remove {
                path: with_suffix(self.path.as_str(), ".bak"),
            },
            SavePhase::ProbeBackupToRestore => FileAction::Probe {
                path: with_suffix(self.path.as_str(), ".bak"),
            },
            SavePhase::Restore => FileAction::Copy {
                from: with_suffix(self.path.as_str(), ".bak"),
                to: self.path.clone(),
            },
        }
    }

    /// Takes the outcome of the session's action and decides what is next.
    pub fn advance(self, outcome: &FileOutcome) -> (progress: SaveProgress)
        ensures
            progress@ == self@.advance(outcome@),
    {
        let SaveSession { path, text, phase, reason } = self;
        match phase {
            SavePhase::ProbeTarget => {
                let next = if outcome.found() {
                    SavePhase::BackUp
                } else {
                    SavePhase::Write
                };
                SaveProgress::Continue(SaveSession { path, text, phase: next, reason })
            },
            SavePhase::BackUp => SaveProgress::Continue(
                SaveSession { path, text, phase: SavePhase::Write, reason },
            ),
            SavePhase::Write => match outcome {
                FileOutcome::Done => SaveProgress::Continue(
                    SaveSession { path, text, phase: SavePhase::ProbeBackup, reason },
                ),
                _ => SaveProgress::Continue(
                    SaveSession {
                        path,
                        text,
                        phase: SavePhase::ProbeBackupToRestore,
                        reason: outcome.reason(),
                    },
                ),
            },
            SavePhase::ProbeBackup => if outcome.found() {
                SaveProgress::Continue(
                    SaveSession { path, text, phase: SavePhase::RemoveBackup, reason },
                )
            } else {
                SaveProgress::Finished(Ok(()))
            },
            SavePhase::RemoveBackup => SaveProgress::Finished(Ok(())),
            SavePhase::ProbeBackupToRestore => if outcome.found() {
                SaveProgress::Continue(SaveSession { path, text, phase: SavePhase::Restore, reason })
            } else {
                SaveProgress::Finished(Err(SaveFailed { reason }))
            },
            SavePhase::Restore => SaveProgress::Finished(Err(SaveFailed { reason })),
        }
    }
}

/// A save keeps its path and its text, and comes nearer to its end with
/// every outcome.
pub proof fn lemma_save_advances(session: SaveView, outcome: OutcomeView)
    ensures
        session.advance(outcome) matches SaveProgressView::Continue(next) ==> {
            &&& next.path == session.path
            &&& next.text == session.text
            &&& next.actions_left() < session.actions_left()
        },
{
}

/// A save succeeds exactly where writing the file succeeded, and fails with
/// the reason that was reported for the write.
pub proof fn lemma_save_outcome(path: Seq<char>, text: Seq<char>, outcomes: Seq<OutcomeView>)
    requires
        outcomes.len() >= 5,
    ensures
        ({
            let write = if outcomes[0].found() {
                outcomes[2]
            } else {
                outcomes[1]
            };
            if write is Done {
                SaveView::begin(path, text).run(outcomes) == SaveProgressView::Saved
            } else {
                SaveView::begin(path, text).run(outcomes) == SaveProgressView::Failed(
                    write.reason(),
                )
            }
        }),
{
    reveal_with_fuel(SaveView::run, 6);
    let o1 = outcomes.drop_first();
    let o2 = o1.drop_first();
    let o3 = o2.drop_first();
    let o4 = o3.drop_first();
    assert(o1[0] == outcomes[1]);
    assert(o2[0] == outcomes[2]);
    assert(o3[0] == outcomes[3]);
    assert(o4[0] == outcomes[4]);
}

/// Starts a save with the text that was written for the catalog, or gives
/// the reason why none was.
pub fn begin_save(path: &str, written: Result<String, JsonError>) -> (r: Result<
    SaveSession,
    SaveFailed,
>)
    ensures
        match (written, r) {
            (Ok(text), Ok(session)) => session@ == SaveView::begin(path@, text@),
            (Err(e), Err(failure)) => failure.reason@ == e.message@,
            _ => false,
        },
{
    match written {
        Ok(text) => Ok(SaveSession::begin(path.to_owned(), text)),
        Err(e) => Err(SaveFailed { reason: e.message }),
    }
}

/// The text of the catalog file for the tracks `posts`.
pub open spec fn catalog_text(posts: Map<Seq<char>, Option<PostView>>) -> Seq<char> {
    pretty_text(document_tree(posts))
}

/// Whether `started` is what starting a save of `posts` to `path` comes to:
/// a save of the text of the catalog file, at its start.
pub open spec fn save_started(
    started: Result<SaveSession, SaveFailed>,
    path: Seq<char>,
    posts: Map<Seq<char>, Option<PostView>>,
) -> bool {
    started matches Ok(session) && session@ == SaveView::begin(path, catalog_text(posts))
}

impl TrackDatabase {
    /// Starts a save of the catalog to its file: of the text that
    /// `serde_json` writes for the document of the catalog. It always
    /// starts; what can fail is the writing of the file.
    pub fn save(&self) -> (r: Result<SaveSession, SaveFailed>)
        requires
            self.wf(),
        ensures
            save_started(r, self.path(), self@.posts),
    {
        let doc = self.to_document();
        begin_save(self.file_path(), doc.to_pretty_text())
    }

    /// Records each of `track_ids` without a post, and starts a save. A post
    /// that was held for one of them is dropped.
    pub fn initialize_with_tracks(&mut self, track_ids: &[String]) -> (r: Result<
        SaveSession,
        SaveFailed,
    >)
        requires
            old(self).wf(),
        ensures
            final(self).wf(),
            final(self).path() == old(self).path(),
            final(self)@ == old(self)@.put_all_unposted(track_ids.deep_view()),
            save_started(r, final(self).path(), final(self)@.posts),
    {
        self.put_all_unposted(track_ids);
        self.save()
    }

    /// Records those of `track_ids` that are not in the catalog, as
    /// `add_tracks` does, and starts a save if there were any.
    pub fn add_tracks_and_save(&mut self, track_ids: &[String]) -> (r: Result<
        (Vec<String>, Option<SaveSession>),
        SaveFailed,
    >)
        requires
            old(self).wf(),
        ensures
            final(self).wf(),
            final(self).path() == old(self).path(),
            final(self)@ == old(self)@.put_all_unposted(
                unseen(old(self)@.posts.dom(), track_ids.deep_view()),
            ),
            match r {
                Ok((added, save)) => {
                    &&& added.deep_view() == unseen(old(self)@.posts.dom(), track_ids.deep_view())
                    &&& save is Some <==> added@.len() > 0
                    &&& save matches Some(session) ==> save_started(
                        Ok(session),
                        final(self).path(),
                        final(self)@.posts,
                    )
                },
                Err(_) => false,
            },
    {
        let added = self.add_tracks(track_ids);
        if added.len() > 0 {
            match self.save() {
                Ok(session) => Ok((added, Some(session))),
                Err(failure) => Err(failure),
            }
        } else {
            Ok((added, None))
        }
    }

    /// Starts loading the catalog from the file at `db_path`. Where there is
    /// no file, an empty catalog is written to it.
    pub fn load_or_create(db_path: String) -> (session: LoadSession)
        ensures
            session.wf(),
            session@ == (LoadView::ProbeFile { path: db_path@ }),
    {
        LoadSession::begin(db_path)
    }

    /// Starts the last save before the process ends: a save of the catalog
    /// as it is, as `save` starts it.
    pub fn shutdown(&self) -> (r: Result<SaveSession, SaveFailed>)
        requires
            self.wf(),
        ensures
            save_started(r, self.path(), self@.posts),
    {
        self.save()
    }
}

/// The path of the copy that is kept of a catalog file in the legacy format.
pub open spec fn legacy_backup_path(path: Seq<char>) -> Seq<char> {
    path + ".old_format.bak"@
}

/// The path of the copy that is kept of a catalog file that is in neither
/// format.
pub open spec fn corrupted_backup_path(path: Seq<char>) -> Seq<char> {
    path + ".corrupted.bak"@
}

/// Loading the catalog file in progress: what was asked for, and what is
/// known so far.
pub enum LoadSession {
    /// Whether the catalog file exists.
    ProbeFile { path: String },
    /// The bytes of the catalog file.
    ReadFile { path: String },
    /// The copy of a file in the legacy format, whose catalog is `db`.
    BackUpLegacy { db: TrackDatabase },
    /// The copy of a file that is in neither format.
    BackUpCorrupted { path: String },
    /// A save of `db`: of a catalog taken over from the legacy format, or of
    /// an empty one.
    Saving { db: TrackDatabase, save: SaveSession },
}

/// The mathematical value of a `LoadSession`.
pub enum LoadView {
    ProbeFile { path: Seq<char> },
    ReadFile { path: Seq<char> },
    BackUpLegacy { path: Seq<char>, posts: Map<Seq<char>, Option<PostView>> },
    BackUpCorrupted { path: Seq<char> },
    Saving { path: Seq<char>, posts: Map<Seq<char>, Option<PostView>>, save: SaveView },
}

impl View for LoadSession {
    type V = LoadView;

    open spec fn view(&self) -> LoadView {
        match self {
            LoadSession::ProbeFile { path } => LoadView::ProbeFile { path: path@ },
            LoadSession::ReadFile { path } => LoadView::ReadFile { path: path@ },
            LoadSession::BackUpLegacy { db } => LoadView::BackUpLegacy {
                path: db.path(),
                posts: db@.posts,
            },
            LoadSession::BackUpCorrupted { path } => LoadView::BackUpCorrupted { path: path@ },
            LoadSession::Saving { db, save } => LoadView::Saving {
                path: db.path(),
                posts: db@.posts,
                save: save@,
            },
        }
    }
}

/// The catalog file could not be loaded.
#[derive(Debug)]
pub struct LoadFailed {
    /// What the caller reported when writing failed.
    pub reason: String,
}

/// What loading has come to after an outcome.
pub enum LoadProgress {
    /// There is another action to perform.
    Continue(LoadSession),
    /// Loading is over.
    Finished(Result<TrackDatabase, LoadFailed>),
}

/// The mathematical value of a `LoadProgress`.
pub enum LoadProgressView {
    Continue(LoadView),
    Loaded { path: Seq<char>, posts: Map<Seq<char>, Option<PostView>> },
    Failed(Seq<char>),
}

impl View for LoadProgress {
    type V = LoadProgressView;

    open spec fn view(&self) -> LoadProgressView {
        match self {
            LoadProgress::Continue(session) => LoadProgressView::Continue(session@),
            LoadProgress::Finished(Ok(db)) => LoadProgressView::Loaded {
                path: db.path(),
                posts: db@.posts,
            },
            LoadProgress::Finished(Err(failure)) => LoadProgressView::Failed(failure.reason@),
        }
    }
}

impl LoadView {
    /// The action that the session waits to hear of.
    pub open spec fn action(self) -> ActionView {
        match self {
            LoadView::ProbeFile { path } => ActionView::Probe { path },
            LoadView::ReadFile { path } => ActionView::Read { path },
            LoadView::BackUpLegacy { path, .. } => ActionView::Copy {
                from: path,
                to: legacy_backup_path(path),
            },
            LoadView::BackUpCorrupted { path } => ActionView::Copy {
                from: path,
                to: corrupted_backup_path(path),
            },
            LoadView::Saving { save, .. } => save.action(),
        }
    }

    /// What loading comes to when a save of `posts` is to start: the save of
    /// the text of the catalog file.
    pub open spec fn start_save(
        path: Seq<char>,
        posts: Map<Seq<char>, Option<PostView>>,
    ) -> LoadProgressView {
        LoadProgressView::Continue(
            LoadView::Saving { path, posts, save: SaveView::begin(path, catalog_text(posts)) },
        )
    }

    /// What loading comes to with the bytes of the catalog file. A file in
    /// the current format is loaded as it is. One in the legacy format is
    /// copied and saved in the current format. Any other is copied, and an
    /// empty catalog takes its place.
    pub open spec fn read(path: Seq<char>, bytes: Seq<u8>) -> LoadProgressView {
        match bytes_tree(bytes) {
            None => LoadProgressView::Continue(LoadView::BackUpCorrupted { path }),
            Some(doc) => match legacy_items(doc) {
                Some(items) => LoadProgressView::Continue(
                    LoadView::BackUpLegacy { path, posts: legacy_catalog(items).posts },
                ),
                None => match current_posts(doc) {
                    Some(posts) => LoadProgressView::Loaded { path, posts },
                    None => LoadProgressView::Continue(LoadView::BackUpCorrupted { path }),
                },
            },
        }
    }

    /// What loading comes to when `outcome` is reported for its action.
    ///
    /// Where no file exists an empty catalog is saved. A file that cannot be
    /// read is treated like one that is in neither format: it is copied, and
    /// an empty catalog takes its place. A save that fails ends loading with
    /// its reason. The copies are made as far as they can be: loading goes
    /// on whatever comes of them.
    pub open spec fn advance(self, outcome: OutcomeView) -> LoadProgressView {
        match self {
            LoadView::ProbeFile { path } => if outcome.found() {
                LoadProgressView::Continue(LoadView::ReadFile { path })
            } else {
                Self::start_save(path, Map::empty())
            },
            LoadView::ReadFile { path } => match outcome {
                OutcomeView::Content(bytes) => Self::read(path, bytes),
                _ => LoadProgressView::Continue(LoadView::BackUpCorrupted { path }),
            },
            LoadView::BackUpLegacy { path, posts } => Self::start_save(path, posts),
            LoadView::BackUpCorrupted { path } => Self::start_save(path, Map::empty()),
            LoadView::Saving { path, posts, save } => match save.advance(outcome) {
                SaveProgressView::Continue(next) => LoadProgressView::Continue(
                    LoadView::Saving { path, posts, save: next },
                ),
                SaveProgressView::Saved => LoadProgressView::Loaded { path, posts },
                SaveProgressView::Failed(reason) => LoadProgressView::Failed(reason),
            },
        }
    }

    /// What loading comes to when `outcomes` are reported one after the
    /// other; outcomes after its end are passed over.
    pub open spec fn run(self, outcomes: Seq<OutcomeView>) -> LoadProgressView
        decreases outcomes.len(),
    {
        if outcomes.len() == 0 {
            LoadProgressView::Continue(self)
        } else {
            match self.advance(outcomes[0]) {
                LoadProgressView::Continue(next) => next.run(outcomes.drop_first()),
                over => over,
            }
        }
    }

    /// How many actions loading may still ask for, at most.
    pub open spec fn actions_left(self) -> nat {
        match self {
            LoadView::ProbeFile { .. } => 8,
            LoadView::ReadFile { .. } => 7,
            LoadView::BackUpLegacy { .. } => 6,
            LoadView::BackUpCorrupted { .. } => 6,
            LoadView::Saving { save, .. } => save.actions_left(),
        }
    }
}

impl LoadSession {
    /// Whether the catalog that the session holds is consistent.
    pub open spec fn wf(&self) -> bool {
        match self {
            LoadSession::BackUpLegacy { db } => db.wf(),
            LoadSession::Saving { db, save, .. } => db.wf() && save@.path == db.path(),
            _ => true,
        }
    }

    /// Loading of the catalog file at `path`, at its start.
    pub fn begin(path: String) -> (session: LoadSession)
        ensures
            session.wf(),
            session@ == (LoadView::ProbeFile { path: path@ }),
    {
        LoadSession::ProbeFile { path }
    }

    /// The action that the session waits to hear of.
    pub fn action(&self) -> (action: FileAction)
        ensures
            action@ == self@.action(),
    {
        match self {
            LoadSession::ProbeFile { path } => FileAction::Probe { path: path.clone() },
            LoadSession::ReadFile { path } => FileAction::Read { path: path.clone() },
            LoadSession::BackUpLegacy { db } => FileAction::Copy {
                from: db.file_path().to_owned(),
                to: with_suffix(db.file_path(), ".old_format.bak"),
            },
            LoadSession::BackUpCorrupted { path } => FileAction::Copy {
                from: path.clone(),
                to: with_suffix(path.as_str(), ".corrupted.bak"),
            },
            LoadSession::Saving { save, .. } => save.action(),
        }
    }

    /// Starts the save of a catalog that loading has arrived at. The save
    /// always starts; were it refused, loading would end with the reason.
    fn start_save(db: TrackDatabase) -> (progress: LoadProgress)
        requires
            db.wf(),
        ensures
            progress@ == LoadView::start_save(db.path(), db@.posts),
            progress matches LoadProgress::Continue(session) ==> session.wf(),
            progress matches LoadProgress::Finished(Ok(loaded)) ==> loaded.wf(),
    {
        match db.save() {
            Ok(save) => LoadProgress::Continue(LoadSession::Saving { db, save }),
            Err(failure) => LoadProgress::Finished(Err(LoadFailed { reason: failure.reason })),
        }
    }

    /// Decides what to do with the bytes of the catalog file.
    pub fn read(path: String, bytes: &[u8]) -> (progress: LoadProgress)
        ensures
            progress@ == LoadView::read(path@, bytes@),
            progress matches LoadProgress::Continue(session) ==> session.wf(),
            progress matches LoadProgress::Finished(Ok(loaded)) ==> loaded.wf(),
    {
        match Json::parse(bytes) {
            Err(_) => LoadProgress::Continue(LoadSession::BackUpCorrupted { path }),
            Ok(doc) => {
                let kept = path.clone();
                match TrackDatabase::from_document(&doc, path) {
                    Ok((db, Format::Legacy)) => LoadProgress::Continue(
                        LoadSession::BackUpLegacy { db },
                    ),
                    Ok((db, Format::Current)) => LoadProgress::Finished(Ok(db)),
                    Err(_) => LoadProgress::Continue(LoadSession::BackUpCorrupted { path: kept }),
                }
            },
        }
    }

    /// Takes the outcome of the session's action and decides what is next.
    pub fn advance(self, outcome: &FileOutcome) -> (progress: LoadProgress)
        requires
            self.wf(),
        ensures
            progress@ == self@.advance(outcome@),
            progress matches LoadProgress::Continue(session) ==> session.wf(),
            progress matches LoadProgress::Finished(Ok(loaded)) ==> loaded.wf(),
    {
        match self {
            LoadSession::ProbeFile { path } => {
                if outcome.found() {
                    let progress = LoadProgress::Continue(LoadSession::ReadFile { path });
                    progress
                } else {
                    let db = TrackDatabase::new(path);
                    assert(db@.posts =~= Map::empty());
                    let progress = Self::start_save(db);
                    progress
                }
            },
            LoadSession::ReadFile { path } => {
                let progress = match outcome {
                    FileOutcome::Content(bytes) => Self::read(path, bytes.as_slice()),
                    _ => LoadProgress::Continue(LoadSession::BackUpCorrupted { path }),
                };
                progress
            },
            LoadSession::BackUpLegacy { db } => {
                let progress = Self::start_save(db);
                progress
            },
            LoadSession::BackUpCorrupted { path } => {
                let db = TrackDatabase::new(path);
                assert(db@.posts =~= Map::empty());
                let progress = Self::start_save(db);
                progress
            },
            LoadSession::Saving { db, save } => {
                let progress = match save.advance(outcome) {
                    SaveProgress::Continue(next) => {
                        proof {
                            lemma_save_advances(save@, outcome@);
                        }
                        LoadProgress::Continue(LoadSession::Saving { db, save: next })
                    },
                    SaveProgress::Finished(Ok(_)) => LoadProgress::Finished(Ok(db)),
                    SaveProgress::Finished(Err(failure)) => LoadProgress::Finished(
                        Err(LoadFailed { reason: failure.reason }),
                    ),
                };
                progress
            },
        }
    }
}

/// Saving and loading keeps the catalog: where `serde_json` reads the text
/// of a saved catalog as the document that was written, loading that file
/// gives the tracks that were saved, with their posts, and writes nothing.
pub proof fn lemma_saved_catalog_loads(
    path: Seq<char>,
    posts: Map<Seq<char>, Option<PostView>>,
    bytes: Seq<u8>,
)
    ensures
        bytes_tree(bytes) == Some(document_tree(posts)) ==> LoadView::read(path, bytes) == (
        LoadProgressView::Loaded { path, posts }),
        bytes_tree(bytes) == Some(document_tree(posts)) ==> (LoadView::ProbeFile { path }).run(
            seq![OutcomeView::Found(true), OutcomeView::Content(bytes)],
        ) == (LoadProgressView::Loaded { path, posts }),
{
    crate::document::lemma_document_round_trip(posts);
    reveal_with_fuel(LoadView::run, 3);
    let outcomes = seq![OutcomeView::Found(true), OutcomeView::Content(bytes)];
    assert(outcomes[0] == OutcomeView::Found(true));
    assert(outcomes.drop_first()[0] == OutcomeView::Content(bytes));
}

/// A cold start: where no file exists and the file can be written, loading
/// asks whether the file exists, and then saves the empty catalog: it asks
/// again whether the file exists, writes the text of the empty catalog to
/// it, and asks whether a backup exists. No copy is made, and loading ends
/// with the empty catalog for the path.
pub proof fn lemma_cold_start(path: Seq<char>, outcomes: Seq<OutcomeView>)
    requires
        outcomes.len() >= 4,
        !outcomes[0].found(),
        !outcomes[1].found(),
        outcomes[2] is Done,
        !outcomes[3].found(),
    ensures
        ({
            let start = LoadView::ProbeFile { path };
            &&& start.action() == (ActionView::Probe { path })
            &&& start.run(outcomes.take(1)) matches LoadProgressView::Continue(first)
                && first.action() == (ActionView::Probe { path })
            &&& start.run(outcomes.take(2)) matches LoadProgressView::Continue(second)
                && second.action() == (ActionView::Write {
                path,
                text: catalog_text(Map::empty()),
            })
            &&& start.run(outcomes.take(3)) matches LoadProgressView::Continue(third)
                && third.action() == (ActionView::Probe { path: backup_path(path) })
            &&& start.run(outcomes) == (LoadProgressView::Loaded { path, posts: Map::empty() })
        }),
{
    reveal_with_fuel(LoadView::run, 5);
    let start = LoadView::ProbeFile { path };
    let o1 = outcomes.drop_first();
    let o2 = o1.drop_first();
    let o3 = o2.drop_first();
    assert(o1[0] == outcomes[1]);
    assert(o2[0] == outcomes[2]);
    assert(o3[0] == outcomes[3]);
    let t1 = outcomes.take(1);
    let t2 = outcomes.take(2);
    let t3 = outcomes.take(3);
    assert(t1[0] == outcomes[0] && t1.drop_first().len() == 0);
    assert(t2[0] == outcomes[0] && t2.drop_first()[0] == outcomes[1]
        && t2.drop_first().drop_first().len() == 0);
    assert(t3[0] == outcomes[0] && t3.drop_first()[0] == outcomes[1]
        && t3.drop_first().drop_first()[0] == outcomes[2]
        && t3.drop_first().drop_first().drop_first().len() == 0);
}

/// Loading comes nearer to its end with every outcome: it asks for eight
/// actions at most.
pub proof fn lemma_load_advances(session: LoadView, outcome: OutcomeView)
    ensures
        session.advance(outcome) matches LoadProgressView::Continue(next)
            ==> next.actions_left() < session.actions_left(),
{
    match session {
        LoadView::Saving { save, .. } => {
            lemma_save_advances(save, outcome);
        },
        _ => {},
    }
}

} // verus!

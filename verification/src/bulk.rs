//! Filling the catalog from the tracks of a list of users, without posting
//! anything.
//!
//! The users are taken one after the other. For each the caller fetches the
//! uploads, and the likes where they are wanted; their tracks are recorded
//! without a post and the catalog is saved. A user whose uploads could not be
//! fetched, or after whom the catalog could not be saved, is not counted.

use crate::db::{lemma_put_all_unposted, CatalogView, TrackDatabase};
use crate::store::{
    catalog_text, ActionView, FileAction, FileOutcome, OutcomeView, SaveProgress,
    SaveProgressView, SaveSession, SaveView,
};
use vstd::prelude::*;

verus! {

/// Something for the caller to do.
#[derive(Debug)]
pub enum BulkAction {
    /// Fetch the uploads of the user, and the likes where `with_likes`.
    Fetch { user_id: String, with_likes: bool },
    /// A step of saving the catalog file.
    File(FileAction),
}

/// The mathematical value of a `BulkAction`.
pub enum BulkActionView {
    Fetch { user_id: Seq<char>, with_likes: bool },
    File(ActionView),
}

impl View for BulkAction {
    type V = BulkActionView;

    open spec fn view(&self) -> BulkActionView {
        match self {
            BulkAction::Fetch { user_id, with_likes } => BulkActionView::Fetch {
                user_id: user_id@,
                with_likes: *with_likes,
            },
            BulkAction::File(action) => BulkActionView::File(action@),
        }
    }
}

/// What came of an action.
#[derive(Debug)]
pub enum BulkEvent {
    /// The identifiers of the tracks that were fetched: of the uploads, and
    /// of the likes where they were asked for.
    Fetched { uploads: Result<Vec<String>, String>, likes: Option<Result<Vec<String>, String>> },
    /// What came of a step of saving.
    File(FileOutcome),
}

/// The mathematical value of a `BulkEvent`: for a fetch, the identifiers to
/// record, or nothing where the uploads could not be fetched.
pub enum BulkEventView {
    Fetched(Option<Seq<Seq<char>>>),
    File(OutcomeView),
}

impl View for BulkEvent {
    type V = BulkEventView;

    open spec fn view(&self) -> BulkEventView {
        match self {
            BulkEvent::Fetched { uploads, likes } => BulkEventView::Fetched(
                match uploads {
                    Ok(ids) => Some(
                        ids.deep_view() + match likes {
                            Some(Ok(liked)) => liked.deep_view(),
                            _ => Seq::empty(),
                        },
                    ),
                    Err(_) => None,
                },
            ),
            BulkEvent::File(outcome) => BulkEventView::File(outcome@),
        }
    }
}

/// The filling of a catalog in progress.
pub struct BulkInit {
    db: TrackDatabase,
    users: Vec<String>,
    scrape_likes: bool,
    next: usize,
    users_processed: usize,
    tracks_added: usize,
    pending: usize,
    save: Option<SaveSession>,
}

/// The mathematical value of a `BulkInit`.
pub struct BulkView {
    pub catalog: CatalogView,
    pub path: Seq<char>,
    pub users: Seq<Seq<char>>,
    pub scrape_likes: bool,
    /// The place of the user that is being handled.
    pub next: int,
    /// How many users were counted.
    pub users_processed: int,
    /// How many tracks were counted.
    pub tracks_added: int,
    /// How many tracks the user that is being handled has added.
    pub pending: int,
    /// The save that is under way, if one is.
    pub save: Option<SaveView>,
}

/// What the filling has come to after an event.
pub enum BulkProgress {
    /// There is another action to perform.
    Continue(BulkInit),
    /// All users were handled.
    Finished { db: TrackDatabase, users_processed: usize, tracks_added: usize },
}

/// The mathematical value of a `BulkProgress`.
pub enum BulkProgressView {
    Continue(BulkView),
    Finished { catalog: CatalogView, path: Seq<char>, users_processed: int, tracks_added: int },
}

impl View for BulkInit {
    type V = BulkView;

    closed spec fn view(&self) -> BulkView {
        BulkView {
            catalog: self.db@,
            path: self.db.path(),
            users: self.users.deep_view(),
            scrape_likes: self.scrape_likes,
            next: self.next as int,
            users_processed: self.users_processed as int,
            tracks_added: self.tracks_added as int,
            pending: self.pending as int,
            save: match self.save {
                Some(session) => Some(session@),
                None => None,
            },
        }
    }
}

impl View for BulkProgress {
    type V = BulkProgressView;

    open spec fn view(&self) -> BulkProgressView {
        match self {
            BulkProgress::Continue(state) => BulkProgressView::Continue(state@),
            BulkProgress::Finished { db, users_processed, tracks_added } => {
                BulkProgressView::Finished {
                    catalog: db@,
                    path: db.path(),
                    users_processed: *users_processed as int,
                    tracks_added: *tracks_added as int,
                }
            },
        }
    }
}

impl BulkView {
    /// Whether the state is consistent: the user that is handled is one of
    /// the users, no more users were counted than were handled, and no more
    /// tracks than the catalog holds.
    pub open spec fn wf(self) -> bool {
        &&& self.catalog.wf()
        &&& 0 <= self.next < self.users.len()
        &&& 0 <= self.users_processed <= self.next
        &&& 0 <= self.tracks_added
        &&& 0 <= self.pending
        &&& self.tracks_added + self.pending <= self.catalog.ids.len()
    }

    /// The filling of `catalog` from `users`, before the first user.
    pub open spec fn begin(
        catalog: CatalogView,
        path: Seq<char>,
        users: Seq<Seq<char>>,
        scrape_likes: bool,
    ) -> BulkProgressView {
        if users.len() == 0 {
            BulkProgressView::Finished { catalog, path, users_processed: 0, tracks_added: 0 }
        } else {
            BulkProgressView::Continue(
                BulkView {
                    catalog,
                    path,
                    users,
                    scrape_likes,
                    next: 0,
                    users_processed: 0,
                    tracks_added: 0,
                    pending: 0,
                    save: None,
                },
            )
        }
    }

    /// The action that the filling waits to hear of.
    pub open spec fn action(self) -> BulkActionView {
        match self.save {
            Some(session) => BulkActionView::File(session.action()),
            None => BulkActionView::Fetch {
                user_id: self.users[self.next],
                with_likes: self.scrape_likes,
            },
        }
    }

    /// What the filling comes to when it turns to the user after this one.
    /// The user is counted, with the tracks that were added, where `counted`.
    pub open spec fn next_user(self, counted: bool) -> BulkProgressView {
        let users_processed = if counted {
            self.users_processed + 1
        } else {
            self.users_processed
        };
        let tracks_added = if counted {
            self.tracks_added + self.pending
        } else {
            self.tracks_added
        };
        if self.next + 1 >= self.users.len() {
            BulkProgressView::Finished {
                catalog: self.catalog,
                path: self.path,
                users_processed,
                tracks_added,
            }
        } else {
            BulkProgressView::Continue(
                BulkView {
                    next: self.next + 1,
                    users_processed,
                    tracks_added,
                    pending: 0,
                    save: None,
                    ..self
                },
            )
        }
    }

    /// What the filling comes to when `event` is reported for its action.
    ///
    /// The tracks of a user are recorded without a post, and the catalog is
    /// saved. The user counts, with as many tracks as the catalog has grown
    /// by, once the save has succeeded. An event that does not answer the
    /// action changes nothing.
    pub open spec fn advance(self, event: BulkEventView) -> BulkProgressView {
        match (self.save, event) {
            (None, BulkEventView::Fetched(None)) => self.next_user(false),
            (None, BulkEventView::Fetched(Some(ids))) => {
                let catalog = self.catalog.put_all_unposted(ids);
                let recorded = BulkView {
                    catalog,
                    pending: catalog.ids.len() - self.catalog.ids.len(),
                    ..self
                };
                BulkProgressView::Continue(
                    BulkView {
                        save: Some(SaveView::begin(self.path, catalog_text(catalog.posts))),
                        ..recorded
                    },
                )
            },
            (Some(session), BulkEventView::File(outcome)) => match session.advance(outcome) {
                SaveProgressView::Continue(next) => BulkProgressView::Continue(
                    BulkView { save: Some(next), ..self },
                ),
                SaveProgressView::Saved => self.next_user(true),
                SaveProgressView::Failed(_) => self.next_user(false),
            },
            _ => BulkProgressView::Continue(self),
        }
    }
}

impl BulkView {
    /// What the filling comes to when `events` are reported one after the
    /// other; events after its end are passed over.
    pub open spec fn run(self, events: Seq<BulkEventView>) -> BulkProgressView
        decreases events.len(),
    {
        if events.len() == 0 {
            BulkProgressView::Continue(self)
        } else {
            match self.advance(events[0]) {
                BulkProgressView::Continue(next) => next.run(events.drop_first()),
                over => over,
            }
        }
    }

    /// Whether the tracks that were counted, and those that the user in hand
    /// has added, are tracks by which the catalog has grown beyond `base`.
    pub open spec fn counted_within(self, base: int) -> bool {
        &&& base + self.tracks_added + self.pending <= self.catalog.ids.len()
        &&& self.save is None ==> self.pending == 0
    }

    /// Whether every user before the one in hand was counted, and the
    /// catalog has grown beyond `base` by just the tracks that were counted
    /// and those that the user in hand has added.
    pub open spec fn counted_exactly(self, base: int) -> bool {
        &&& base + self.tracks_added + self.pending == self.catalog.ids.len()
        &&& self.users_processed == self.next
        &&& self.save is None ==> self.pending == 0
    }

    /// Whether `event` answers the action and reports no failure: tracks that
    /// were fetched, or a step of the save that does not fail it.
    pub open spec fn goes_well(self, event: BulkEventView) -> bool {
        match (self.save, event) {
            (None, BulkEventView::Fetched(Some(_))) => true,
            (Some(session), BulkEventView::File(outcome)) => !(session.advance(
                outcome,
            ) is Failed),
            _ => false,
        }
    }

    /// Whether each of `events` goes well when they are reported one after
    /// the other.
    pub open spec fn all_go_well(self, events: Seq<BulkEventView>) -> bool
        decreases events.len(),
    {
        if events.len() == 0 {
            true
        } else {
            self.goes_well(events[0]) && match self.advance(events[0]) {
                BulkProgressView::Continue(next) => next.all_go_well(events.drop_first()),
                _ => true,
            }
        }
    }
}

/// One event keeps the filling consistent and its counts within the growth
/// of the catalog.
pub proof fn lemma_bulk_step(state: BulkView, base: int, event: BulkEventView)
    requires
        state.wf(),
        state.counted_within(base),
    ensures
        match state.advance(event) {
            BulkProgressView::Continue(next) => {
                &&& next.wf()
                &&& next.counted_within(base)
                &&& next.users == state.users
                &&& state.counted_exactly(base) && state.goes_well(event)
                    ==> next.counted_exactly(base)
            },
            BulkProgressView::Finished { catalog, users_processed, tracks_added, .. } => {
                &&& catalog.wf()
                &&& 0 <= users_processed <= state.users.len()
                &&& 0 <= tracks_added
                &&& base + tracks_added <= catalog.ids.len()
                &&& state.counted_exactly(base) && state.goes_well(event) ==> {
                    &&& users_processed == state.users.len()
                    &&& base + tracks_added == catalog.ids.len()
                }
            },
        },
{
    match (state.save, event) {
        (None, BulkEventView::Fetched(Some(ids))) => {
            lemma_catalog_grows(state.catalog, ids);
            lemma_put_all_unposted(state.catalog, ids);
        },
        _ => {},
    }
}

/// The counts of the filling: however the fetches and saves go, no more
/// users are counted than there are, and no more tracks than the catalog has
/// grown by. Where every fetch and every save goes well, every user is
/// counted, and the tracks that are counted are just those by which the
/// catalog has grown.
pub proof fn lemma_bulk_run(state: BulkView, base: int, events: Seq<BulkEventView>)
    requires
        state.wf(),
        state.counted_within(base),
    ensures
        match state.run(events) {
            BulkProgressView::Continue(last) => {
                &&& last.wf()
                &&& last.counted_within(base)
                &&& last.users == state.users
                &&& state.counted_exactly(base) && state.all_go_well(events)
                    ==> last.counted_exactly(base)
            },
            BulkProgressView::Finished { catalog, users_processed, tracks_added, .. } => {
                &&& catalog.wf()
                &&& 0 <= users_processed <= state.users.len()
                &&& 0 <= tracks_added
                &&& base + tracks_added <= catalog.ids.len()
                &&& state.counted_exactly(base) && state.all_go_well(events) ==> {
                    &&& users_processed == state.users.len()
                    &&& base + tracks_added == catalog.ids.len()
                }
            },
        },
    decreases events.len(),
{
    if events.len() > 0 {
        lemma_bulk_step(state, base, events[0]);
        match state.advance(events[0]) {
            BulkProgressView::Continue(next) => {
                lemma_bulk_run(next, base, events.drop_first());
            },
            _ => {},
        }
    }
}

/// The filling of a catalog from its start: the tracks that are counted at
/// the end are among those by which the catalog has grown, and they are all
/// of them, with every user counted, where every fetch and every save went
/// well.
pub proof fn lemma_bulk_counts(
    catalog: CatalogView,
    path: Seq<char>,
    users: Seq<Seq<char>>,
    scrape_likes: bool,
    events: Seq<BulkEventView>,
)
    requires
        catalog.wf(),
    ensures
        BulkView::begin(catalog, path, users, scrape_likes) matches BulkProgressView::Continue(
            state,
        ) ==> match state.run(events) {
            BulkProgressView::Finished { catalog: filled, users_processed, tracks_added, .. } => {
                &&& 0 <= users_processed <= users.len()
                &&& 0 <= tracks_added <= filled.ids.len() - catalog.ids.len()
                &&& state.all_go_well(events) ==> {
                    &&& users_processed == users.len()
                    &&& tracks_added == filled.ids.len() - catalog.ids.len()
                }
            },
            _ => true,
        },
{
    match BulkView::begin(catalog, path, users, scrape_likes) {
        BulkProgressView::Continue(state) => {
            lemma_bulk_run(state, catalog.ids.len() as int, events);
        },
        _ => {},
    }
}

/// Recording tracks never makes the catalog smaller.
pub proof fn lemma_catalog_grows(c: CatalogView, ids: Seq<Seq<char>>)
    ensures
        c.put_all_unposted(ids).ids.len() >= c.ids.len(),
    decreases ids.len(),
{
    if ids.len() > 0 {
        lemma_catalog_grows(c, ids.drop_last());
    }
}

impl BulkInit {
    /// Whether the state is consistent.
    pub open spec fn wf(&self) -> bool {
        self@.wf()
    }

    /// The action that the filling waits to hear of.
    pub fn action(&self) -> (action: BulkAction)
        requires
            self.wf(),
        ensures
            action@ == self@.action(),
    {
        match &self.save {
            Some(session) => BulkAction::File(session.action()),
            None => {
                assert(self.users.deep_view()[self.next as int] == self.users@[self.next as int]@);
                BulkAction::Fetch {
                    user_id: self.users[self.next].clone(),
                    with_likes: self.scrape_likes,
                }
            },
        }
    }

    /// Turns to the user after this one.
    fn next_user(self, counted: bool) -> (progress: BulkProgress)
        requires
            self.wf(),
        ensures
            progress@ == self@.next_user(counted),
            progress matches BulkProgress::Continue(state) ==> state.wf(),
            progress matches BulkProgress::Finished { db, .. } ==> db.wf(),
    {
        let BulkInit { db, users, scrape_likes, next, users_processed, tracks_added, pending, save } =
            self;
        let total = users.len();
        let size = db.len();
        assert(users.deep_view().len() == total);
        assert(tracks_added + pending <= size);
        let users_processed = if counted {
            users_processed + 1
        } else {
            users_processed
        };
        let tracks_added = if counted {
            tracks_added + pending
        } else {
            tracks_added
        };
        if next + 1 >= total {
            BulkProgress::Finished { db, users_processed, tracks_added }
        } else {
            BulkProgress::Continue(
                BulkInit {
                    db,
                    users,
                    scrape_likes,
                    next: next + 1,
                    users_processed,
                    tracks_added,
                    pending: 0,
                    save: None,
                },
            )
        }
    }

    /// Takes what came of the filling's action and decides what is next.
    pub fn advance(self, event: BulkEvent) -> (progress: BulkProgress)
        requires
            self.wf(),
        ensures
            progress@ == self@.advance(event@),
            progress matches BulkProgress::Continue(state) ==> state.wf(),
            progress matches BulkProgress::Finished { db, .. } ==> db.wf(),
    {
        let ghost before = self@;
        let BulkInit { db, users, scrape_likes, next, users_processed, tracks_added, pending, save } =
            self;
        match (save, event) {
            (None, BulkEvent::Fetched { uploads, likes }) => {
                let mut ids = match uploads {
                    Ok(ids) => ids,
                    Err(_) => {
                        let state = BulkInit {
                            db,
                            users,
                            scrape_likes,
                            next,
                            users_processed,
                            tracks_added,
                            pending,
                            save: None,
                        };
                        let progress = state.next_user(false);
                        assert(progress@ == before.advance(event@));
                        return progress;
                    },
                };
                let ghost fetched = event@->Fetched_0->0;
                match likes {
                    Some(Ok(mut liked)) => {
                        let ghost first = ids.deep_view();
                        let ghost second = liked.deep_view();
                        ids.append(&mut liked);
                        assert(ids.deep_view() =~= first + second);
                    },
                    _ => {
                        assert(ids.deep_view() + Seq::<Seq<char>>::empty() =~= ids.deep_view());
                    },
                }
                assert(ids.deep_view() == fetched);
                let mut db = db;
                let size = db.len();
                let slice = ids.as_slice();
                assert(slice.deep_view() =~= ids.deep_view());
                db.put_all_unposted(slice);
                proof {
                    lemma_catalog_grows(before.catalog, fetched);
                    lemma_put_all_unposted(before.catalog, fetched);
                }
                let pending = db.len() - size;
                match db.save() {
                    Ok(session) => {
                        let progress = BulkProgress::Continue(
                            BulkInit {
                                db,
                                users,
                                scrape_likes,
                                next,
                                users_processed,
                                tracks_added,
                                pending,
                                save: Some(session),
                            },
                        );
                        assert(progress@ == before.advance(event@));
                        progress
                    },
                    Err(_) => {
                        let state = BulkInit {
                            db,
                            users,
                            scrape_likes,
                            next,
                            users_processed,
                            tracks_added,
                            pending,
                            save: None,
                        };
                        let progress = state.next_user(false);
                        assert(progress@ == before.advance(event@));
                        progress
                    },
                }
            },
            (Some(session), BulkEvent::File(outcome)) => {
                let progress = match session.advance(&outcome) {
                    SaveProgress::Continue(next_step) => BulkProgress::Continue(
                        BulkInit {
                            db,
                            users,
                            scrape_likes,
                            next,
                            users_processed,
                            tracks_added,
                            pending,
                            save: Some(next_step),
                        },
                    ),
                    SaveProgress::Finished(result) => {
                        let state = BulkInit {
                            db,
                            users,
                            scrape_likes,
                            next,
                            users_processed,
                            tracks_added,
                            pending,
                            save: None,
                        };
                        state.next_user(result.is_ok())
                    },
                };
                assert(progress@ == before.advance(event@));
                progress
            },
            (save, _) => {
                let progress = BulkProgress::Continue(
                    BulkInit {
                        db,
                        users,
                        scrape_likes,
                        next,
                        users_processed,
                        tracks_added,
                        pending,
                        save,
                    },
                );
                assert(progress@ == before.advance(event@));
                progress
            },
        }
    }
}

impl TrackDatabase {
    /// Starts filling the catalog from the tracks of `users`, which are taken
    /// in order. The likes of each user are asked for where `scrape_likes`.
    pub fn initialize_with_tracks_from_users(self, users: Vec<String>, scrape_likes: bool) -> (progress:
        BulkProgress)
        requires
            self.wf(),
        ensures
            progress@ == BulkView::begin(self@, self.path(), users.deep_view(), scrape_likes),
            progress matches BulkProgress::Continue(state) ==> state.wf(),
            progress matches BulkProgress::Finished { db, .. } ==> db.wf(),
    {
        if users.len() == 0 {
            BulkProgress::Finished { db: self, users_processed: 0, tracks_added: 0 }
        } else {
            BulkProgress::Continue(
                BulkInit {
                    db: self,
                    users,
                    scrape_likes,
                    next: 0,
                    users_processed: 0,
                    tracks_added: 0,
                    pending: 0,
                    save: None,
                },
            )
        }
    }
}

} // verus!

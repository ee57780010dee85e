//! One polling cycle for one user: which tracks are new, what became of
//! each, and what is recorded in the catalog.
//!
//! Fetching, downloading and posting are the caller's. The functions here
//! take what came of them and decide what follows.

use crate::db::{opt_text, CatalogView, PostView, TrackDatabase};
use crate::discord::WebhookResponse;
use crate::embed::Track;
use crate::store::{save_started, SaveFailed, SaveSession};
use crate::text::same_text;
use vstd::prelude::*;

verus! {

/// The identifiers of the tracks, in order.
pub open spec fn track_ids(tracks: Seq<Track>) -> Seq<Seq<char>> {
    Seq::new(tracks.len(), |i: int| tracks[i].id@)
}

/// The first place at which `id` occurs in `ids`; the length of `ids` where
/// it does not occur.
pub open spec fn first_place(ids: Seq<Seq<char>>, id: Seq<char>) -> int
    decreases ids.len(),
{
    if ids.len() == 0 {
        0
    } else if first_place(ids.drop_last(), id) < ids.len() - 1 {
        first_place(ids.drop_last(), id)
    } else if ids.last() == id {
        ids.len() - 1
    } else {
        ids.len() as int
    }
}

/// The work of a cycle: among the first `n` places, in order, each place that
/// holds an identifier which is not known and does not occur before it. A
/// track that is fetched more than once is worked on once.
pub open spec fn work_of(known: Set<Seq<char>>, ids: Seq<Seq<char>>, n: int) -> Seq<int>
    decreases n,
{
    if n <= 0 {
        Seq::empty()
    } else if !known.contains(ids[n - 1]) && first_place(ids, ids[n - 1]) == n - 1 {
        work_of(known, ids, n - 1).push(n - 1)
    } else {
        work_of(known, ids, n - 1)
    }
}

/// Where an identifier is first found, it is found, and not before.
pub proof fn lemma_first_place(ids: Seq<Seq<char>>, id: Seq<char>)
    ensures
        0 <= first_place(ids, id) <= ids.len(),
        first_place(ids, id) < ids.len() ==> ids[first_place(ids, id)] == id,
        forall|k: int| 0 <= k < first_place(ids, id) ==> ids[k] != id,
    decreases ids.len(),
{
    if ids.len() > 0 {
        lemma_first_place(ids.drop_last(), id);
        assert forall|k: int| 0 <= k < first_place(ids, id) implies ids[k] != id by {
            if k < ids.len() - 1 {
                assert(ids.drop_last()[k] == ids[k]);
            }
        }
        if first_place(ids, id) < ids.len() - 1 {
            assert(ids.drop_last()[first_place(ids, id)] == ids[first_place(ids, id)]);
        }
    }
}

/// A cycle works once on every track that is new: each place of the work
/// holds an identifier that is not known, at the first place at which it
/// occurs; no identifier has two places; and every identifier that is not
/// known has its first place among them.
pub proof fn lemma_work_once(known: Set<Seq<char>>, ids: Seq<Seq<char>>, n: int)
    requires
        0 <= n <= ids.len(),
    ensures
        forall|k: int|
            0 <= k < work_of(known, ids, n).len() ==> {
                let place = #[trigger] work_of(known, ids, n)[k];
                &&& 0 <= place < n
                &&& !known.contains(ids[place])
                &&& first_place(ids, ids[place]) == place
            },
        forall|a: int, b: int|
            0 <= a < b < work_of(known, ids, n).len() ==> ids[#[trigger] work_of(known, ids, n)[a]]
                != ids[#[trigger] work_of(known, ids, n)[b]],
        forall|i: int|
            0 <= i < n && !known.contains(#[trigger] ids[i]) ==> work_of(known, ids, n).contains(
                first_place(ids, ids[i]),
            ),
    decreases n,
{
    if n > 0 {
        let work = work_of(known, ids, n);
        let before = work_of(known, ids, n - 1);
        lemma_work_once(known, ids, n - 1);
        assert forall|k: int| 0 <= k < before.len() implies work[k] == before[k] by {}
        assert forall|a: int, b: int| 0 <= a < b < work.len() implies ids[#[trigger] work[a]]
            != ids[#[trigger] work[b]] by {
            if b < before.len() {
                assert(ids[before[a]] != ids[before[b]]);
            } else {
                let early = before[a];
                assert(work[b] == n - 1);
                assert(first_place(ids, ids[early]) == early);
                assert(early < n - 1);
            }
        }
        assert forall|i: int| 0 <= i < n && !known.contains(#[trigger] ids[i]) implies work.contains(
            first_place(ids, ids[i]),
        ) by {
            let place = first_place(ids, ids[i]);
            lemma_first_place(ids, ids[i]);
            if place > i {
                assert(ids[i] != ids[i]);
            }
            if place == n - 1 {
                assert(ids[place] == ids[i]);
                assert(work[work.len() - 1] == place);
            } else {
                if i == n - 1 {
                    assert(ids[place] == ids[i]);
                    assert(!known.contains(ids[place]));
                    assert(first_place(ids, ids[place]) == place);
                    assert(before.contains(first_place(ids, ids[place])));
                } else {
                    assert(before.contains(place));
                }
                let k = choose|k: int| 0 <= k < before.len() && before[k] == place;
                assert(work[k] == place);
            }
        }
    }
}

/// The tracks that a cycle looks at: the uploads, and behind them the likes
/// where they were fetched.
pub open spec fn candidates_of(
    uploads: Seq<Track>,
    likes: Option<Result<Vec<Track>, String>>,
) -> Seq<Track> {
    match likes {
        Some(Ok(liked)) => uploads + liked@,
        _ => uploads,
    }
}

/// A cycle cannot go on: the uploads of the user could not be fetched.
#[derive(Debug)]
pub struct PollFailed {
    /// What the caller reported.
    pub reason: String,
}

/// What a cycle has to do.
#[derive(Debug)]
pub struct PollPlan {
    /// The tracks that the cycle looks at.
    pub candidates: Vec<Track>,
    /// The places in `candidates` of the tracks to process: one place for
    /// each identifier that is not in the catalog, the first at which it
    /// occurs.
    pub work: Vec<usize>,
}

/// Puts the likes behind the uploads, where they were fetched.
pub fn gather_candidates(uploads: Vec<Track>, likes: Option<Result<Vec<Track>, String>>) -> (all:
    Vec<Track>)
    ensures
        all@ == candidates_of(uploads@, likes),
{
    let mut all = uploads;
    match likes {
        Some(Ok(mut liked)) => {
            all.append(&mut liked);
        },
        _ => {},
    }
    all
}

/// The place of the first of `tracks` with the identifier `id`.
fn first_track(tracks: &Vec<Track>, id: &str) -> (place: usize)
    ensures
        place == first_place(track_ids(tracks@), id@),
{
    let ghost ids = track_ids(tracks@);
    let mut i: usize = 0;
    while i < tracks.len()
        invariant
            i <= tracks@.len(),
            ids == track_ids(tracks@),
            forall|k: int| 0 <= k < i ==> ids[k] != id@,
        decreases tracks@.len() - i,
    {
        if same_text(tracks[i].id.as_str(), id) {
            proof {
                lemma_first_place(ids, id@);
                let found = first_place(ids, id@);
                if found < i {
                    assert(ids[found] == id@);
                } else if found > i {
                    assert(ids[i as int] != id@);
                }
            }
            return i;
        }
        i += 1;
    }
    proof {
        lemma_first_place(ids, id@);
        let found = first_place(ids, id@);
        if found < ids.len() {
            assert(ids[found] == id@);
        }
    }
    i
}

impl TrackDatabase {
    /// Decides what a cycle has to do with what was fetched for the user.
    ///
    /// Without the uploads the cycle fails. Likes that could not be fetched
    /// are passed over. Every track that is not in the catalog is to be
    /// processed once, however often it was fetched; the catalog is left as
    /// it is.
    pub fn poll_user(
        &self,
        uploads: Result<Vec<Track>, String>,
        likes: Option<Result<Vec<Track>, String>>,
    ) -> (r: Result<PollPlan, PollFailed>)
        ensures
            match (uploads, r) {
                (Ok(fetched), Ok(plan)) => {
                    &&& plan.candidates@ == candidates_of(fetched@, likes)
                    &&& plan.work@.map_values(|place: usize| place as int) == work_of(
                        self@.posts.dom(),
                        track_ids(plan.candidates@),
                        plan.candidates@.len() as int,
                    )
                    &&& forall|k: int|
                        0 <= k < plan.work@.len() ==> (#[trigger] plan.work@[k])
                            < plan.candidates@.len()
                },
                (Err(reason), Err(failure)) => failure.reason@ == reason@,
                _ => false,
            },
    {
        let fetched = match uploads {
            Ok(fetched) => fetched,
            Err(reason) => {
                return Err(PollFailed { reason });
            },
        };
        let candidates = gather_candidates(fetched, likes);
        let ghost ids = track_ids(candidates@);
        let ghost known = self@.posts.dom();
        let mut work: Vec<usize> = Vec::new();
        let mut i: usize = 0;
        while i < candidates.len()
            invariant
                i <= candidates@.len(),
                ids == track_ids(candidates@),
                known == self@.posts.dom(),
                work@.map_values(|place: usize| place as int) == work_of(known, ids, i as int),
                forall|k: int| 0 <= k < work@.len() ==> (#[trigger] work@[k]) < candidates@.len(),
            decreases candidates@.len() - i,
        {
            let ghost before = work@.map_values(|place: usize| place as int);
            if !self.has_track(candidates[i].id.as_str()) {
                let place = first_track(&candidates, candidates[i].id.as_str());
                if place == i {
                    work.push(i);
                    assert(work@.map_values(|place: usize| place as int) =~= before.push(i as int));
                }
            }
            i += 1;
        }
        Ok(PollPlan { candidates, work })
    }
}

/// What came of the work on one track.
#[derive(Debug)]
pub enum Attempt {
    /// No permit for processing could be had.
    NoPermit,
    /// The details of the track could not be fetched.
    NoDetails,
    /// The track was not posted: its files could not be had, or the webhook
    /// failed.
    NotPosted,
    /// The track was posted.
    Posted(WebhookResponse),
}

/// What the task of one track does next. The permit for processing is held
/// from the first step to the end of the task.
#[derive(Clone, Copy, Debug, PartialEq, Eq, Structural)]
pub enum TaskStep {
    /// Wait for a permit for processing.
    AcquirePermit,
    /// Fetch the details of the track.
    FetchDetails,
    /// Download the files of the track.
    AcquireFiles,
    /// Post the track to the webhook, under a permit for publishing.
    Publish,
}

/// What came of a step.
#[derive(Debug)]
pub enum StepOutcome {
    /// The step was carried out.
    Done,
    /// The step failed.
    Failed,
    /// The track was posted.
    Posted(WebhookResponse),
}

/// What the task of one track has come to after a step.
#[derive(Debug)]
pub enum TaskProgress {
    /// There is another step to take.
    Continue(TaskStep),
    /// The work on the track is over.
    Finished(Attempt),
}

/// The place of a step in the order of the steps.
pub open spec fn step_rank(step: TaskStep) -> int {
    match step {
        TaskStep::AcquirePermit => 0,
        TaskStep::FetchDetails => 1,
        TaskStep::AcquireFiles => 2,
        TaskStep::Publish => 3,
    }
}

/// The first step of the work on a track.
pub fn first_step() -> (step: TaskStep)
    ensures
        step == TaskStep::AcquirePermit,
{
    TaskStep::AcquirePermit
}

/// Decides what follows a step of the work on a track.
///
/// The steps are taken in their order, and the first that fails ends the
/// work. The track counts as posted only with the answer of the webhook to
/// the last step.
pub fn next_step(step: TaskStep, outcome: StepOutcome) -> (progress: TaskProgress)
    ensures
        match (step, outcome) {
            (TaskStep::AcquirePermit, StepOutcome::Done) => progress matches TaskProgress::Continue(
                TaskStep::FetchDetails,
            ),
            (TaskStep::AcquirePermit, _) => progress matches TaskProgress::Finished(
                Attempt::NoPermit,
            ),
            (TaskStep::FetchDetails, StepOutcome::Done) => progress matches TaskProgress::Continue(
                TaskStep::AcquireFiles,
            ),
            (TaskStep::FetchDetails, _) => progress matches TaskProgress::Finished(
                Attempt::NoDetails,
            ),
            (TaskStep::AcquireFiles, StepOutcome::Done) => progress matches TaskProgress::Continue(
                TaskStep::Publish,
            ),
            (TaskStep::AcquireFiles, _) => progress matches TaskProgress::Finished(
                Attempt::NotPosted,
            ),
            (TaskStep::Publish, StepOutcome::Posted(response)) => progress matches TaskProgress::Finished(
                Attempt::Posted(kept),
            ) && kept@ == response@,
            (TaskStep::Publish, _) => progress matches TaskProgress::Finished(Attempt::NotPosted),
        },
        progress matches TaskProgress::Continue(next) ==> step_rank(next) == step_rank(step) + 1,
{
    match step {
        TaskStep::AcquirePermit => match outcome {
            StepOutcome::Done => TaskProgress::Continue(TaskStep::FetchDetails),
            _ => TaskProgress::Finished(Attempt::NoPermit),
        },
        TaskStep::FetchDetails => match outcome {
            StepOutcome::Done => TaskProgress::Continue(TaskStep::AcquireFiles),
            _ => TaskProgress::Finished(Attempt::NoDetails),
        },
        TaskStep::AcquireFiles => match outcome {
            StepOutcome::Done => TaskProgress::Continue(TaskStep::Publish),
            _ => TaskProgress::Finished(Attempt::NotPosted),
        },
        TaskStep::Publish => match outcome {
            StepOutcome::Posted(response) => TaskProgress::Finished(Attempt::Posted(response)),
            _ => TaskProgress::Finished(Attempt::NotPosted),
        },
    }
}

/// How the task of one track ended.
#[derive(Debug)]
pub enum TaskEnd {
    /// The task ran to its end.
    Completed { track_id: String, attempt: Attempt },
    /// The task broke off.
    Crashed,
}

/// A track that was posted in a cycle, to be recorded in the catalog.
#[derive(Debug)]
pub struct PostedTrack {
    pub track_id: String,
    /// The message, where the post is known.
    pub message_id: Option<String>,
    pub channel_id: Option<String>,
}

/// The mathematical value of a `PostedTrack`.
pub struct PostedView {
    pub track_id: Seq<char>,
    pub message_id: Option<Seq<char>>,
    pub channel_id: Option<Seq<char>>,
}

impl View for PostedTrack {
    type V = PostedView;

    open spec fn view(&self) -> PostedView {
        PostedView {
            track_id: self.track_id@,
            message_id: opt_text(self.message_id),
            channel_id: opt_text(self.channel_id),
        }
    }
}

impl DeepView for PostedTrack {
    type V = PostedView;

    open spec fn deep_view(&self) -> PostedView {
        self@
    }
}

/// What the tasks of a cycle came to.
#[derive(Debug)]
pub struct CycleTally {
    /// How many tasks ran to their end, whatever came of the track.
    pub processed: usize,
    /// How many errors are to be counted: one for each task that broke off,
    /// and one for each track that was not posted.
    pub errors: usize,
    /// The tracks that were posted, in the order of their tasks.
    pub successes: Vec<PostedTrack>,
}

/// The track that a task posted, if it posted one.
pub open spec fn success_of(end: TaskEnd) -> Option<PostedView> {
    match end {
        TaskEnd::Completed { track_id, attempt: Attempt::Posted(response) } => Some(
            PostedView {
                track_id: track_id@,
                message_id: Some(response.message_id@),
                channel_id: opt_text(response.channel_id),
            },
        ),
        _ => None,
    }
}

/// The tracks that were posted by the first `n` tasks, in order.
pub open spec fn successes_of(ends: Seq<TaskEnd>, n: int) -> Seq<PostedView>
    decreases n,
{
    if n <= 0 {
        Seq::empty()
    } else {
        match success_of(ends[n - 1]) {
            Some(posted) => successes_of(ends, n - 1).push(posted),
            None => successes_of(ends, n - 1),
        }
    }
}

/// How many of the first `n` tasks ran to their end.
pub open spec fn completed_among(ends: Seq<TaskEnd>, n: int) -> int
    decreases n,
{
    if n <= 0 {
        0
    } else if ends[n - 1] is Completed {
        completed_among(ends, n - 1) + 1
    } else {
        completed_among(ends, n - 1)
    }
}

/// Takes stock of the tasks of a cycle.
pub fn settle_cycle(ends: Vec<TaskEnd>) -> (tally: CycleTally)
    ensures
        tally.processed == completed_among(ends@, ends@.len() as int),
        tally.successes.deep_view() == successes_of(ends@, ends@.len() as int),
        tally.errors == ends@.len() - tally.successes@.len(),
{
    let mut processed: usize = 0;
    let mut errors: usize = 0;
    let mut successes: Vec<PostedTrack> = Vec::new();
    assert(successes.deep_view() =~= Seq::empty());
    let total = ends.len();
    for end in it: ends
        invariant
            it.seq() == ends@,
            ends@.len() == total,
            processed == completed_among(ends@, it.index() as int),
            processed <= it.index(),
            successes.deep_view() == successes_of(ends@, it.index() as int),
            successes@.len() + errors == it.index(),
    {
        let ghost before = successes.deep_view();
        match end {
            TaskEnd::Completed { track_id, attempt } => {
                processed += 1;
                match attempt {
                    Attempt::Posted(response) => {
                        let posted = PostedTrack {
                            track_id,
                            message_id: Some(response.message_id),
                            channel_id: response.channel_id,
                        };
                        successes.push(posted);
                        assert(successes.deep_view() =~= before.push(posted@));
                    },
                    _ => {
                        errors += 1;
                    },
                }
            },
            TaskEnd::Crashed => {
                errors += 1;
            },
        }
    }
    CycleTally { processed, errors, successes }
}

impl CatalogView {
    /// The catalog after a posted track was recorded for `user_id`: with its
    /// post where the message is known, without a post otherwise.
    pub open spec fn record(self, user_id: Seq<char>, posted: PostedView) -> CatalogView {
        match posted.message_id {
            Some(message_id) => self.put(
                posted.track_id,
                Some(
                    PostView {
                        id: message_id,
                        channel_id: posted.channel_id,
                        user_id: Some(user_id),
                    },
                ),
            ),
            None => self.put(posted.track_id, None),
        }
    }

    /// The catalog after each of the posted tracks was recorded, in order.
    pub open spec fn record_all(self, user_id: Seq<char>, posted: Seq<PostedView>) -> CatalogView
        decreases posted.len(),
    {
        if posted.len() == 0 {
            self
        } else {
            self.record_all(user_id, posted.drop_last()).record(user_id, posted.last())
        }
    }
}

/// Recording posted tracks adds those tracks to the catalog and no others,
/// and keeps the catalog consistent.
pub proof fn lemma_record_all(c: CatalogView, user_id: Seq<char>, posted: Seq<PostedView>)
    requires
        c.wf(),
    ensures
        c.record_all(user_id, posted).wf(),
        forall|id: Seq<char>| #[trigger]
            c.record_all(user_id, posted).has(id) <==> c.has(id) || exists|k: int|
                0 <= k < posted.len() && (#[trigger] posted[k]).track_id == id,
    decreases posted.len(),
{
    if posted.len() > 0 {
        let front = posted.drop_last();
        let mid = c.record_all(user_id, front);
        lemma_record_all(c, user_id, front);
        let after = c.record_all(user_id, posted);
        match posted.last().message_id {
            Some(message_id) => crate::db::lemma_put_wf(
                mid,
                posted.last().track_id,
                Some(
                    PostView {
                        id: message_id,
                        channel_id: posted.last().channel_id,
                        user_id: Some(user_id),
                    },
                ),
            ),
            None => crate::db::lemma_put_wf(mid, posted.last().track_id, None),
        }
        assert forall|id: Seq<char>| #[trigger]
            after.has(id) <==> c.has(id) || exists|k: int|
                0 <= k < posted.len() && (#[trigger] posted[k]).track_id == id by {
            if after.has(id) && !c.has(id) {
                if id == posted.last().track_id {
                    assert(posted[posted.len() - 1].track_id == id);
                } else {
                    assert(mid.has(id));
                    let k = choose|k: int|
                        0 <= k < front.len() && (#[trigger] front[k]).track_id == id;
                    assert(posted[k].track_id == id);
                }
            }
            if exists|k: int| 0 <= k < posted.len() && (#[trigger] posted[k]).track_id == id {
                let k = choose|k: int| 0 <= k < posted.len() && (#[trigger] posted[k]).track_id == id;
                if k < posted.len() - 1 {
                    assert(front[k].track_id == id);
                    assert(mid.has(id));
                }
            }
            if c.has(id) {
                assert(mid.has(id));
            }
        }
    }
}

/// A track that was not posted in a cycle is not recorded by it: whatever is
/// in the catalog after the cycle was there before, or was posted by a task
/// that ran to its end.
pub proof fn lemma_failure_is_not_recorded(
    c: CatalogView,
    user_id: Seq<char>,
    ends: Seq<TaskEnd>,
    id: Seq<char>,
)
    requires
        c.wf(),
        !c.has(id),
        forall|k: int|
            0 <= k < ends.len() ==> !(#[trigger] success_of(ends[k]) matches Some(posted)
                && posted.track_id == id),
    ensures
        !c.record_all(user_id, successes_of(ends, ends.len() as int)).has(id),
{
    let posted = successes_of(ends, ends.len() as int);
    lemma_successes_come_from_tasks(ends, ends.len() as int);
    lemma_record_all(c, user_id, posted);
    if c.record_all(user_id, posted).has(id) {
        let k = choose|k: int| 0 <= k < posted.len() && (#[trigger] posted[k]).track_id == id;
        let j = choose|j: int| 0 <= j < ends.len() && success_of(#[trigger] ends[j]) == Some(posted[k]);
        assert(false);
    }
}

/// Every track among the successes was posted by one of the tasks.
pub proof fn lemma_successes_come_from_tasks(ends: Seq<TaskEnd>, n: int)
    requires
        0 <= n <= ends.len(),
    ensures
        forall|k: int|
            0 <= k < successes_of(ends, n).len() ==> exists|j: int|
                0 <= j < n && success_of(#[trigger] ends[j]) == Some(
                    #[trigger] successes_of(ends, n)[k],
                ),
    decreases n,
{
    if n > 0 {
        lemma_successes_come_from_tasks(ends, n - 1);
        let now = successes_of(ends, n);
        let before = successes_of(ends, n - 1);
        assert forall|k: int| 0 <= k < now.len() implies exists|j: int|
            0 <= j < n && success_of(#[trigger] ends[j]) == Some(#[trigger] now[k]) by {
            if k < before.len() {
                assert(now[k] == before[k]);
                let j = choose|j: int|
                    0 <= j < n - 1 && success_of(#[trigger] ends[j]) == Some(before[k]);
                assert(0 <= j < n && success_of(ends[j]) == Some(now[k]));
            } else {
                assert(success_of(ends[n - 1]) == Some(now[k]));
            }
        }
    }
}

impl TrackDatabase {
    /// Records the tracks that were posted in a cycle of `user_id`, and
    /// starts a save if there were any.
    pub fn commit_cycle(&mut self, user_id: &str, successes: &Vec<PostedTrack>) -> (save: Option<
        Result<SaveSession, SaveFailed>,
    >)
        requires
            old(self).wf(),
        ensures
            final(self).wf(),
            final(self).path() == old(self).path(),
            final(self)@ == old(self)@.record_all(user_id@, successes.deep_view()),
            save is Some <==> successes@.len() > 0,
            save matches Some(started) ==> save_started(
                started,
                final(self).path(),
                final(self)@.posts,
            ),
    {
        let ghost all = successes.deep_view();
        let mut i: usize = 0;
        while i < successes.len()
            invariant
                i <= successes@.len(),
                all == successes.deep_view(),
                self.wf(),
                self.path() == old(self).path(),
                self@ == old(self)@.record_all(user_id@, all.take(i as int)),
            decreases successes@.len() - i,
        {
            proof {
                assert(all.take(i + 1).drop_last() =~= all.take(i as int));
                assert(all.take(i + 1).last() == successes@[i as int]@);
            }
            let posted = &successes[i];
            match &posted.message_id {
                Some(message_id) => {
                    self.add_track_with_discord_info(
                        posted.track_id.as_str(),
                        message_id.clone(),
                        crate::db::clone_opt(&posted.channel_id),
                        Some(user_id.to_owned()),
                    );
                },
                None => {
                    self.put(posted.track_id.as_str(), None);
                },
            }
            i += 1;
        }
        assert(all.take(i as int) =~= all);
        if successes.len() > 0 {
            Some(self.save())
        } else {
            None
        }
    }
}

/// What a cycle reports when it is over.
#[derive(Clone, Copy, Debug, PartialEq, Eq, Structural)]
pub struct CycleReport {
    /// How many tasks ran to their end: what the cycle returns.
    pub processed: usize,
    /// How many errors are to be added to the error count.
    pub errors: usize,
    /// How many tracks are to be added to the count of all tracks: those
    /// that were posted, where the catalog was saved with them.
    pub tracks_saved: usize,
}

/// Closes a cycle. `saved` says what came of the save, where one was made; a
/// save that failed leaves the catalog in memory as it is, and is no error
/// of the cycle.
pub fn close_cycle(tally: &CycleTally, saved: Option<bool>) -> (report: CycleReport)
    ensures
        report.processed == tally.processed,
        report.errors == tally.errors,
        report.tracks_saved == if saved == Some(true) {
            tally.successes@.len()
        } else {
            0
        },
{
    let tracks_saved = match saved {
        Some(true) => tally.successes.len(),
        _ => 0,
    };
    CycleReport { processed: tally.processed, errors: tally.errors, tracks_saved }
}

} // verus!

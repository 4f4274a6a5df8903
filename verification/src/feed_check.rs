use vstd::prelude::*;

use crate::downloads::DownloadJob;
use crate::feeds::{episodes_view, newer_first, newest_first, sort_newest_first, ParsedEpisode};
use crate::ordering::stable_sort;
use crate::model::{DownloadProgress, EpisodeStatus, FeedCheckSummary, FeedSubscription};
use crate::sync::{
    apply_existing, apply_first_run, existing_error_fn, existing_job_fn, feed_finished_event,
    feed_limit, first_run_job_fn, first_run_status, lemma_first_run_downloads_newest, initial_download_limit, insert_error_fn,
    insert_skipped_fn, record_check_failure, start_feed_check, ExistingOutcome,
    InsertOutcome,
};

verus! {

// ---------------------------------------------------------------------------
// Checking one feed, step by step
//
// A feed check alternates work on the network and the database with decisions. The
// decisions stand here: `begin_feed_check` starts a check, and `feed_check_step` takes the
// outcome of the work last asked for and says what to do next and what to report.
// ---------------------------------------------------------------------------

/// Where the check of a feed stands: the work it waits for.
#[derive(Debug, Clone, Copy, PartialEq, Eq, Structural)]
pub enum FeedCheckPhase {
    Fetching,
    StoringMetadata,
    Counting,
    StoringEpisodes,
    Marking,
    Done,
}

/// The check of one feed while it runs.
#[derive(Debug)]
pub struct FeedCheck {
    pub feed: FeedSubscription,
    /// How many episodes a first check downloads.
    pub limit: usize,
    pub phase: FeedCheckPhase,
    /// Whether the feed had no stored episodes when it was counted.
    pub first_run: bool,
    /// The parsed feed's episodes, newest first.
    pub episodes: Vec<ParsedEpisode>,
    pub summary: FeedCheckSummary,
    pub jobs: Vec<DownloadJob>,
}

/// The outcome of the work a check asked for.
#[derive(Debug)]
pub enum FeedCheckEvent {
    /// The feed was fetched and parsed, with these episodes, or that failed.
    Fetched(std::result::Result<Vec<ParsedEpisode>, String>),
    /// The feed's title and links were stored, or that failed.
    MetadataStored(std::result::Result<(), String>),
    /// The feed's stored episodes were counted, or that failed.
    Counted(std::result::Result<i64, String>),
    /// The episodes of a first check were stored, newest first, each with its status.
    FirstRunStored(Vec<(EpisodeStatus, InsertOutcome)>),
    /// The episodes of a later check were looked up, and new ones stored.
    ExistingStored(Vec<ExistingOutcome>),
    /// The feed was marked as checked, or that failed.
    Marked(std::result::Result<(), String>),
}

/// The work a check asks for next.
#[derive(Debug)]
pub enum FeedCheckAction {
    /// Fetch the feed's URL and parse it.
    Fetch,
    /// Store the parsed feed's title and links.
    StoreMetadata,
    /// Count the feed's stored episodes.
    CountEpisodes,
    /// Store these episodes, newest first, each with its status.
    StoreFirstRun(Vec<(ParsedEpisode, EpisodeStatus)>),
    /// Look up each of the check's episodes by its key, storing a new one as pending.
    StoreExisting,
    /// Mark the feed as checked.
    MarkChecked,
    /// Nothing more: the summary and the jobs are final.
    Finish,
}

/// The event that reports a check as started.
pub open spec fn started_event(feed: FeedSubscription) -> DownloadProgress {
    DownloadProgress::FeedStarted { feed_id: feed.id, feed_title: feed.normalized_title }
}

/// The event that reports a check as finished, with its counts.
pub open spec fn finished_event(s: FeedCheckSummary) -> DownloadProgress {
    DownloadProgress::FeedFinished {
        feed_id: s.feed_id,
        feed_title: s.feed_title,
        queued: s.queued,
        downloaded: s.downloaded,
        failed: s.failed,
    }
}

/// The event that reports a job as queued.
pub open spec fn queued_event(job: DownloadJob) -> DownloadProgress {
    DownloadProgress::DownloadQueued {
        feed_id: job.feed_id,
        episode_id: job.episode.id,
        episode_title: job.episode.normalized_title,
    }
}

/// What a finished check reports last: each job queued, in order, then its counts.
pub open spec fn closing_events(jobs: Seq<DownloadJob>, s: FeedCheckSummary) -> Seq<DownloadProgress> {
    jobs.map_values(|j: DownloadJob| queued_event(j)).push(finished_event(s))
}

/// A consistent check: its summary is for its feed, counts no download or deletion, and
/// queues exactly its jobs; until its episodes are stored it counts nothing else.
pub open spec fn feed_check_wf(c: FeedCheck) -> bool {
    &&& c.summary.feed_id@ == c.feed.id@
    &&& c.summary.feed_title@ == c.feed.normalized_title@
    &&& c.summary.downloaded == 0
    &&& c.summary.deleted_by_retention == 0
    &&& c.summary.queued == c.jobs@.len()
    &&& (c.phase != FeedCheckPhase::Marking && c.phase != FeedCheckPhase::Done) ==> {
        &&& c.summary.queued == 0
        &&& c.summary.skipped_initial == 0
        &&& c.summary.failed == 0
        &&& c.summary.errors@.len() == 0
    }
    &&& c.phase == FeedCheckPhase::Fetching ==> c.summary.discovered == 0
}

/// The event is the outcome of the work the check waits for.
pub open spec fn event_fits(c: FeedCheck, e: FeedCheckEvent) -> bool {
    match e {
        FeedCheckEvent::Fetched(_) => c.phase == FeedCheckPhase::Fetching,
        FeedCheckEvent::MetadataStored(_) => c.phase == FeedCheckPhase::StoringMetadata,
        FeedCheckEvent::Counted(_) => c.phase == FeedCheckPhase::Counting,
        FeedCheckEvent::FirstRunStored(_) => c.phase == FeedCheckPhase::StoringEpisodes
            && c.first_run,
        FeedCheckEvent::ExistingStored(_) => c.phase == FeedCheckPhase::StoringEpisodes
            && !c.first_run,
        FeedCheckEvent::Marked(_) => c.phase == FeedCheckPhase::Marking,
    }
}

/// The counts and the jobs are unchanged.
pub open spec fn counts_kept(old: FeedCheck, new: FeedCheck) -> bool {
    &&& new.summary.feed_id == old.summary.feed_id
    &&& new.summary.feed_title == old.summary.feed_title
    &&& new.summary.queued == old.summary.queued
    &&& new.summary.downloaded == old.summary.downloaded
    &&& new.summary.skipped_initial == old.summary.skipped_initial
    &&& new.summary.failed == old.summary.failed
    &&& new.summary.deleted_by_retention == old.summary.deleted_by_retention
    &&& new.summary.errors@ == old.summary.errors@
    &&& new.jobs@ == old.jobs@
}

/// A failed step of the work: the check ends with one failure more, its text, and no job.
pub open spec fn ends_failed(
    old: FeedCheck,
    message: String,
    new: FeedCheck,
    action: FeedCheckAction,
    emitted: Seq<DownloadProgress>,
) -> bool {
    &&& new.phase == FeedCheckPhase::Done
    &&& new.summary.failed == old.summary.failed + 1
    &&& new.summary.errors@ == old.summary.errors@.push(message)
    &&& new.summary.feed_id == old.summary.feed_id
    &&& new.summary.feed_title == old.summary.feed_title
    &&& new.summary.discovered == old.summary.discovered
    &&& new.summary.queued == old.summary.queued
    &&& new.summary.downloaded == old.summary.downloaded
    &&& new.summary.skipped_initial == old.summary.skipped_initial
    &&& new.summary.deleted_by_retention == old.summary.deleted_by_retention
    &&& new.jobs@ == old.jobs@
    &&& action is Finish
    &&& emitted == closing_events(new.jobs@, new.summary)
}

/// One step of a feed check: what the outcome of its work makes of it, the work it asks
/// for next and the events it reports.
pub open spec fn feed_check_transition(
    old: FeedCheck,
    e: FeedCheckEvent,
    new: FeedCheck,
    action: FeedCheckAction,
    emitted: Seq<DownloadProgress>,
) -> bool {
    &&& new.feed == old.feed
    &&& new.limit == old.limit
    &&& feed_check_wf(new)
    &&& match e {
        FeedCheckEvent::Fetched(Err(m)) => ends_failed(old, m, new, action, emitted),
        FeedCheckEvent::Fetched(Ok(episodes)) => {
            &&& new.phase == FeedCheckPhase::StoringMetadata
            &&& new.episodes@ == stable_sort(episodes@, newer_first())
            &&& newest_first(episodes_view(new.episodes@))
            &&& new.summary.discovered == episodes@.len()
            &&& counts_kept(old, new)
            &&& action is StoreMetadata
            &&& emitted.len() == 0
        },
        FeedCheckEvent::MetadataStored(Err(m)) => ends_failed(old, m, new, action, emitted),
        FeedCheckEvent::MetadataStored(Ok(_)) => {
            &&& new.phase == FeedCheckPhase::Counting
            &&& new.episodes == old.episodes
            &&& new.summary.discovered == old.summary.discovered
            &&& counts_kept(old, new)
            &&& action is CountEpisodes
            &&& emitted.len() == 0
        },
        FeedCheckEvent::Counted(Err(m)) => ends_failed(old, m, new, action, emitted),
        FeedCheckEvent::Counted(Ok(count)) => {
            &&& new.phase == FeedCheckPhase::StoringEpisodes
            &&& new.first_run == (count == 0)
            &&& new.episodes == old.episodes
            &&& new.summary.discovered == old.summary.discovered
            &&& counts_kept(old, new)
            &&& emitted.len() == 0
            &&& if count == 0 {
                action matches FeedCheckAction::StoreFirstRun(pairs) && pairs@.len()
                    == old.episodes@.len() && forall|i: int|
                    0 <= i < pairs@.len() ==> (#[trigger] pairs@[i]).0 == old.episodes@[i]
                        && pairs@[i].1 == first_run_status(i, old.limit as nat)
            } else {
                action is StoreExisting
            }
        },
        FeedCheckEvent::FirstRunStored(outcomes) => {
            &&& new.phase == FeedCheckPhase::Marking
            &&& new.jobs@ == outcomes@.filter_map(first_run_job_fn(old.feed))
            &&& new.summary.queued == old.summary.queued + new.jobs@.len()
            &&& new.summary.skipped_initial == old.summary.skipped_initial + outcomes@.filter_map(
                insert_skipped_fn(),
            ).len()
            &&& new.summary.failed == old.summary.failed + outcomes@.filter_map(
                insert_error_fn(),
            ).len()
            &&& new.summary.errors@ == old.summary.errors@ + outcomes@.filter_map(insert_error_fn())
            &&& new.summary.discovered == old.summary.discovered
            &&& action is MarkChecked
            &&& emitted.len() == 0
        },
        FeedCheckEvent::ExistingStored(outcomes) => {
            &&& new.phase == FeedCheckPhase::Marking
            &&& new.jobs@ == outcomes@.filter_map(existing_job_fn(old.feed))
            &&& new.summary.queued == old.summary.queued + new.jobs@.len()
            &&& new.summary.skipped_initial == old.summary.skipped_initial
            &&& new.summary.failed == old.summary.failed + outcomes@.filter_map(
                existing_error_fn(),
            ).len()
            &&& new.summary.errors@ == old.summary.errors@ + outcomes@.filter_map(
                existing_error_fn(),
            )
            &&& new.summary.discovered == old.summary.discovered
            &&& action is MarkChecked
            &&& emitted.len() == 0
        },
        FeedCheckEvent::Marked(marked) => {
            &&& new.phase == FeedCheckPhase::Done
            &&& new.jobs@ == old.jobs@
            &&& new.summary.feed_id == old.summary.feed_id
            &&& new.summary.feed_title == old.summary.feed_title
            &&& new.summary.discovered == old.summary.discovered
            &&& new.summary.queued == old.summary.queued
            &&& new.summary.downloaded == old.summary.downloaded
            &&& new.summary.skipped_initial == old.summary.skipped_initial
            &&& new.summary.failed == old.summary.failed
            &&& new.summary.deleted_by_retention == old.summary.deleted_by_retention
            &&& match marked {
                Ok(_) => new.summary.errors@ == old.summary.errors@,
                Err(m) => new.summary.errors@ == old.summary.errors@.push(m),
            }
            &&& action is Finish
            &&& emitted == closing_events(new.jobs@, new.summary)
        },
    }
}

/// A run of a feed check: the states it passes, the outcomes it takes, and the work it
/// asks for and the events it reports at each step.
pub open spec fn feed_check_run(
    states: Seq<FeedCheck>,
    events: Seq<FeedCheckEvent>,
    actions: Seq<FeedCheckAction>,
    emitted: Seq<Seq<DownloadProgress>>,
) -> bool {
    &&& states.len() == events.len() + 1
    &&& actions.len() == events.len()
    &&& emitted.len() == events.len()
    &&& forall|i: int|
        0 <= i < events.len() ==> #[trigger] event_fits(states[i], events[i])
            && feed_check_transition(states[i], events[i], states[i + 1], actions[i], emitted[i])
}

/// A check that has run to its end reports nothing on the way and, at its last step, each
/// job queued and then its counts; its summary is for its feed and queues exactly its
/// jobs, and it ends only at that last step.
pub proof fn lemma_finished_run_reports(
    states: Seq<FeedCheck>,
    events: Seq<FeedCheckEvent>,
    actions: Seq<FeedCheckAction>,
    emitted: Seq<Seq<DownloadProgress>>,
)
    requires
        feed_check_wf(states[0]),
        feed_check_run(states, events, actions, emitted),
        events.len() > 0,
        states.last().phase == FeedCheckPhase::Done,
    ensures
        forall|i: int| 0 <= i < events.len() - 1 ==> (#[trigger] emitted[i]).len() == 0,
        forall|i: int|
            0 < i < states.len() - 1 ==> (#[trigger] states[i]).phase != FeedCheckPhase::Done,
        emitted.last() == closing_events(states.last().jobs@, states.last().summary),
        actions.last() is Finish,
        states.last().summary.queued == states.last().jobs@.len(),
        states.last().summary.feed_id@ == states[0].feed.id@,
        states.last().feed == states[0].feed,
{
    let n = events.len() as int;
    assert forall|i: int| 0 <= i < n - 1 implies (#[trigger] emitted[i]).len() == 0 by {
        assert(event_fits(states[i + 1], events[i + 1]));
        assert(event_fits(states[i], events[i]));
    }
    assert forall|i: int| 0 < i < states.len() - 1 implies (#[trigger] states[i]).phase
        != FeedCheckPhase::Done by {
        assert(event_fits(states[i], events[i]));
    }
    assert(event_fits(states[n - 1], events[n - 1]));
    assert(states[n] == states.last());
    assert forall|i: int| 0 <= i <= n implies (#[trigger] states[i]).feed == states[0].feed by {
        if i > 0 {
            lemma_feed_kept(states, events, actions, emitted, i);
        }
    }
}

proof fn lemma_feed_kept(
    states: Seq<FeedCheck>,
    events: Seq<FeedCheckEvent>,
    actions: Seq<FeedCheckAction>,
    emitted: Seq<Seq<DownloadProgress>>,
    i: int,
)
    requires
        feed_check_run(states, events, actions, emitted),
        0 <= i < states.len(),
    ensures
        states[i].feed == states[0].feed,
    decreases i,
{
    if i > 0 {
        lemma_feed_kept(states, events, actions, emitted, i - 1);
        assert(event_fits(states[i - 1], events[i - 1]));
    }
}

/// A check whose feed cannot be fetched or parsed ends at once: one failure with its
/// text, nothing discovered, no job, no work on the database asked for, and only its
/// counts reported.
pub proof fn lemma_fetch_failure_ends_check(
    states: Seq<FeedCheck>,
    events: Seq<FeedCheckEvent>,
    actions: Seq<FeedCheckAction>,
    emitted: Seq<Seq<DownloadProgress>>,
    message: String,
)
    requires
        feed_check_wf(states[0]),
        states[0].phase == FeedCheckPhase::Fetching,
        feed_check_run(states, events, actions, emitted),
        events.len() > 0,
        events[0] == FeedCheckEvent::Fetched(Err(message)),
    ensures
        events.len() == 1,
        states[1].phase == FeedCheckPhase::Done,
        states[1].summary.failed == 1,
        states[1].summary.errors@ == seq![message],
        states[1].summary.discovered == 0,
        states[1].summary.queued == 0,
        states[1].jobs@.len() == 0,
        actions[0] is Finish,
        emitted[0] == seq![finished_event(states[1].summary)],
{
    assert(event_fits(states[0], events[0]));
    if events.len() > 1 {
        assert(event_fits(states[1], events[1]));
    }
    assert(states[1].jobs@ =~= Seq::<DownloadJob>::empty());
    assert(closing_events(states[1].jobs@, states[1].summary) =~= seq![finished_event(states[1].summary)]);
}

/// On a first check, the i-th episode handed over for storing is the i-th newest, pending
/// exactly when it is among the newest `limit` and skipped otherwise.
pub proof fn lemma_first_check_stores_newest(
    old: FeedCheck,
    new: FeedCheck,
    action: FeedCheckAction,
    emitted: Seq<DownloadProgress>,
)
    requires
        feed_check_transition(old, FeedCheckEvent::Counted(Ok(0)), new, action, emitted),
    ensures
        action matches FeedCheckAction::StoreFirstRun(pairs) && pairs@.len() == old.episodes@.len()
            && forall|i: int|
            0 <= i < pairs@.len() ==> (#[trigger] pairs@[i]).0 == old.episodes@[i] && (pairs@[i].1
                == EpisodeStatus::Pending <==> i < old.limit) && (pairs@[i].1
                == EpisodeStatus::SkippedInitial <==> i >= old.limit),
{
    lemma_first_run_downloads_newest(old.episodes@.len(), old.limit as nat);
}

/// Starts checking `feed`: nothing counted yet, the feed to be fetched, and its start
/// reported.
pub fn begin_feed_check(feed: FeedSubscription, default_limit: u32) -> (r: (
    FeedCheck,
    DownloadProgress,
    FeedCheckAction,
))
    ensures
        r.0.feed == feed,
        r.0.limit == feed_limit(feed, default_limit),
        r.0.phase == FeedCheckPhase::Fetching,
        feed_check_wf(r.0),
        r.0.jobs@.len() == 0,
        r.1 == started_event(feed),
        r.2 is Fetch,
{
    let summary = start_feed_check(&feed);
    let limit = initial_download_limit(&feed, default_limit);
    let started = DownloadProgress::FeedStarted {
        feed_id: feed.id.clone(),
        feed_title: feed.normalized_title.clone(),
    };
    (
        FeedCheck {
            feed,
            limit,
            phase: FeedCheckPhase::Fetching,
            first_run: false,
            episodes: Vec::new(),
            summary,
            jobs: Vec::new(),
        },
        started,
        FeedCheckAction::Fetch,
    )
}

/// The events a finished check reports.
fn closing(jobs: &Vec<DownloadJob>, summary: &FeedCheckSummary) -> (r: Vec<DownloadProgress>)
    ensures
        r@ == closing_events(jobs@, *summary),
{
    let mut r: Vec<DownloadProgress> = Vec::new();
    let mut i: usize = 0;
    while i < jobs.len()
        invariant
            i <= jobs@.len(),
            r@ == jobs@.take(i as int).map_values(|j: DownloadJob| queued_event(j)),
        decreases jobs@.len() - i,
    {
        let job = &jobs[i];
        r.push(
            DownloadProgress::DownloadQueued {
                feed_id: job.feed_id.clone(),
                episode_id: job.episode.id.clone(),
                episode_title: job.episode.normalized_title.clone(),
            },
        );
        assert(jobs@.take(i + 1) =~= jobs@.take(i as int).push(jobs@[i as int]));
        i = i + 1;
    }
    assert(jobs@.take(jobs@.len() as int) =~= jobs@);
    let finished = feed_finished_event(summary);
    r.push(finished);
    r
}

impl FeedCheck {
    /// Whether the check is consistent and waits for the work `event` is the outcome of:
    /// whether `feed_check_step` may take it.
    pub fn accepts(&self, event: &FeedCheckEvent) -> (r: bool)
        ensures
            r == (feed_check_wf(*self) && event_fits(*self, *event)),
    {
        let s = &self.summary;
        let before_storing = self.phase != FeedCheckPhase::Marking && self.phase
            != FeedCheckPhase::Done;
        let consistent = s.feed_id == self.feed.id && s.feed_title == self.feed.normalized_title
            && s.downloaded == 0 && s.deleted_by_retention == 0 && s.queued == self.jobs.len()
            && (!before_storing || (s.queued == 0 && s.skipped_initial == 0 && s.failed == 0
            && s.errors.len() == 0)) && (self.phase != FeedCheckPhase::Fetching || s.discovered
            == 0);
        let fits = match event {
            FeedCheckEvent::Fetched(_) => self.phase == FeedCheckPhase::Fetching,
            FeedCheckEvent::MetadataStored(_) => self.phase == FeedCheckPhase::StoringMetadata,
            FeedCheckEvent::Counted(_) => self.phase == FeedCheckPhase::Counting,
            FeedCheckEvent::FirstRunStored(_) => self.phase == FeedCheckPhase::StoringEpisodes
                && self.first_run,
            FeedCheckEvent::ExistingStored(_) => self.phase == FeedCheckPhase::StoringEpisodes
                && !self.first_run,
            FeedCheckEvent::Marked(_) => self.phase == FeedCheckPhase::Marking,
        };
        consistent && fits
    }
}

/// The episodes of a first check, newest first, each with the status it is stored with:
/// pending among the newest `limit`, skipped after them.
fn first_run_pairs(episodes: &Vec<ParsedEpisode>, limit: usize) -> (r: Vec<(ParsedEpisode, EpisodeStatus)>)
    ensures
        r@.len() == episodes@.len(),
        forall|i: int|
            0 <= i < r@.len() ==> (#[trigger] r@[i]).0 == episodes@[i] && r@[i].1
                == first_run_status(i, limit as nat),
{
    let mut r: Vec<(ParsedEpisode, EpisodeStatus)> = Vec::new();
    let mut i: usize = 0;
    while i < episodes.len()
        invariant
            i <= episodes@.len(),
            r@.len() == i,
            forall|k: int|
                0 <= k < i ==> (#[trigger] r@[k]).0 == episodes@[k] && r@[k].1
                    == first_run_status(k, limit as nat),
        decreases episodes@.len() - i,
    {
        let status = if i < limit {
            EpisodeStatus::Pending
        } else {
            EpisodeStatus::SkippedInitial
        };
        r.push((episodes[i].clone(), status));
        i = i + 1;
    }
    r
}

/// Ends a check on a failed step of its work.
fn fail_check(check: &mut FeedCheck, message: String) -> (r: (FeedCheckAction, Vec<DownloadProgress>))
    requires
        feed_check_wf(*old(check)),
        old(check).phase != FeedCheckPhase::Marking,
        old(check).phase != FeedCheckPhase::Done,
    ensures
        ends_failed(*old(check), message, *final(check), r.0, r.1@),
        final(check).feed == old(check).feed,
        final(check).limit == old(check).limit,
        feed_check_wf(*final(check)),
{
    record_check_failure(&mut check.summary, message);
    check.phase = FeedCheckPhase::Done;
    let emitted = closing(&check.jobs, &check.summary);
    (FeedCheckAction::Finish, emitted)
}

/// Takes the outcome of the work a check asked for: the check's next state, the work to do
/// next and the events to report (see `feed_check_transition`).
pub fn feed_check_step(check: &mut FeedCheck, event: FeedCheckEvent) -> (r: (
    FeedCheckAction,
    Vec<DownloadProgress>,
))
    requires
        feed_check_wf(*old(check)),
        event_fits(*old(check), event),
    ensures
        feed_check_transition(*old(check), event, *final(check), r.0, r.1@),
{
    match event {
        FeedCheckEvent::Fetched(Err(m)) => fail_check(check, m),
        FeedCheckEvent::Fetched(Ok(episodes)) => {
            let mut episodes = episodes;
            check.summary.discovered = episodes.len();
            sort_newest_first(&mut episodes);
            check.episodes = episodes;
            check.phase = FeedCheckPhase::StoringMetadata;
            (FeedCheckAction::StoreMetadata, Vec::new())
        },
        FeedCheckEvent::MetadataStored(Err(m)) => fail_check(check, m),
        FeedCheckEvent::MetadataStored(Ok(_)) => {
            check.phase = FeedCheckPhase::Counting;
            (FeedCheckAction::CountEpisodes, Vec::new())
        },
        FeedCheckEvent::Counted(Err(m)) => fail_check(check, m),
        FeedCheckEvent::Counted(Ok(count)) => {
            check.phase = FeedCheckPhase::StoringEpisodes;
            if count == 0 {
                check.first_run = true;
                let pairs = first_run_pairs(&check.episodes, check.limit);
                (FeedCheckAction::StoreFirstRun(pairs), Vec::new())
            } else {
                check.first_run = false;
                (FeedCheckAction::StoreExisting, Vec::new())
            }
        },
        FeedCheckEvent::FirstRunStored(outcomes) => {
            assert(outcomes.len() <= usize::MAX);
            let jobs = apply_first_run(&mut check.summary, &check.feed, outcomes);
            check.jobs = jobs;
            check.phase = FeedCheckPhase::Marking;
            (FeedCheckAction::MarkChecked, Vec::new())
        },
        FeedCheckEvent::ExistingStored(outcomes) => {
            assert(outcomes.len() <= usize::MAX);
            let jobs = apply_existing(&mut check.summary, &check.feed, outcomes);
            check.jobs = jobs;
            check.phase = FeedCheckPhase::Marking;
            (FeedCheckAction::MarkChecked, Vec::new())
        },
        FeedCheckEvent::Marked(marked) => {
            match marked {
                Ok(_) => {},
                Err(m) => {
                    check.summary.errors.push(m);
                },
            }
            check.phase = FeedCheckPhase::Done;
            let emitted = closing(&check.jobs, &check.summary);
            (FeedCheckAction::Finish, emitted)
        },
    }
}

} // verus!

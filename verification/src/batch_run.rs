use vstd::prelude::*;

use crate::batch::{
    admit_episode, batch_result_recorded, begin_batch, queued_recorded, record_batch_result,
    record_missing, record_queued, summary_index, BatchPlan,
};
use crate::downloads::{job_for, make_job, DownloadJob};
use crate::feed_check::queued_event;
use crate::model::{DownloadProgress, EpisodeRecord, FeedCheckSummary, FeedSubscription};
use crate::sync::{
    count_sum, has_text, lemma_count_sum_bounds, lemma_count_sum_update, result_error_fn,
    result_ok_fn, JobResult,
};

verus! {

// ---------------------------------------------------------------------------
// Downloading chosen episodes, step by step
//
// A manual download alternates lookups in the database and downloads with decisions. The
// decisions stand here: `begin_batch_run` takes the requested ids, and `batch_run_step`
// takes the outcome of the lookup or of the downloads last asked for and says what to do
// next and what to report.
// ---------------------------------------------------------------------------

/// What a batch waits for.
#[derive(Debug, Clone, Copy, PartialEq, Eq, Structural)]
pub enum BatchPhase {
    /// The episode of the id last taken is looked up.
    FindingEpisode,
    /// The feed of that episode is looked up.
    FindingFeed,
    /// The queued jobs are downloaded.
    Running,
    /// Every id is accounted for.
    Done,
}

/// A manual download while it runs.
pub struct BatchRun {
    pub plan: BatchPlan,
    /// The ids asked for, in order.
    pub ids: Vec<String>,
    /// How many of them have been taken.
    pub next: usize,
    pub phase: BatchPhase,
    /// The episode whose feed is looked up.
    pub episode: Option<EpisodeRecord>,
    /// The jobs queued, in order.
    pub jobs: Vec<DownloadJob>,
}

/// The outcome of the work a batch asked for.
#[derive(Debug)]
pub enum BatchEvent {
    /// The episode of the id last taken, if the library holds it.
    EpisodeFound(Option<EpisodeRecord>),
    /// The feed of that episode, if the library holds it.
    FeedFound(Option<FeedSubscription>),
    /// The result of each queued job.
    JobsRan(Vec<JobResult>),
}

/// The work a batch asks for next.
#[derive(Debug)]
pub enum BatchAction {
    /// Look up the episode with this id.
    LookUpEpisode(String),
    /// Look up the feed with this id.
    LookUpFeed(String),
    /// Download the queued jobs.
    RunJobs,
    /// Nothing more: the plan is final.
    Finish,
}

pub open spec fn queued_count() -> spec_fn(FeedCheckSummary) -> int {
    |f: FeedCheckSummary| f.queued as int
}

pub open spec fn downloaded_count() -> spec_fn(FeedCheckSummary) -> int {
    |f: FeedCheckSummary| f.downloaded as int
}

pub open spec fn failed_count() -> spec_fn(FeedCheckSummary) -> int {
    |f: FeedCheckSummary| f.failed as int
}

/// The books of a batch balance: one summary per feed, one error per failure, the queued
/// count the sum over the feed summaries, and their downloads and failures within the
/// batch's own.
pub open spec fn books_balance(r: BatchRun) -> bool {
    let s = r.plan.summary;
    let fs = r.plan.feed_summaries@;
    &&& r.plan.wf()
    &&& s.requested == r.ids@.len()
    &&& r.next <= r.ids@.len()
    &&& s.errors@.len() == s.failed
    &&& s.queued == count_sum(fs, queued_count())
    &&& count_sum(fs, downloaded_count()) <= s.downloaded
    &&& count_sum(fs, failed_count()) <= s.failed
}

/// Every id taken so far is a failure or a queued job, and nothing is downloaded yet.
pub open spec fn planned(r: BatchRun) -> bool {
    &&& books_balance(r)
    &&& r.plan.summary.failed + r.plan.summary.queued == r.next
    &&& r.plan.summary.downloaded == 0
    &&& r.jobs@.len() == r.plan.summary.queued
}

/// A consistent batch: its books balance, and every id taken is accounted for, the one
/// being looked up aside; once done, every id asked for is a download or a failure.
pub open spec fn batch_run_wf(r: BatchRun) -> bool {
    let s = r.plan.summary;
    &&& books_balance(r)
    &&& match r.phase {
        BatchPhase::FindingEpisode => s.failed + s.queued + 1 == r.next && s.downloaded == 0
            && r.jobs@.len() == s.queued,
        BatchPhase::FindingFeed => s.failed + s.queued + 1 == r.next && s.downloaded == 0
            && r.jobs@.len() == s.queued && r.episode is Some,
        BatchPhase::Running => s.failed + s.queued == r.next && r.next == r.ids@.len()
            && s.downloaded == 0 && r.jobs@.len() == s.queued,
        BatchPhase::Done => s.downloaded + s.failed == s.requested,
    }
}

/// The event is the outcome of the work the batch waits for.
pub open spec fn batch_event_fits(r: BatchRun, e: BatchEvent) -> bool {
    match e {
        BatchEvent::EpisodeFound(_) => r.phase == BatchPhase::FindingEpisode,
        BatchEvent::FeedFound(_) => r.phase == BatchPhase::FindingFeed,
        BatchEvent::JobsRan(results) => r.phase == BatchPhase::Running && results@.len()
            == r.jobs@.len(),
    }
}

/// The action is the work the batch now waits for.
pub open spec fn batch_action_fits(r: BatchRun, a: BatchAction) -> bool {
    match a {
        BatchAction::LookUpEpisode(id) => r.phase == BatchPhase::FindingEpisode && 0 < r.next
            && id@ == r.ids@[r.next - 1]@,
        BatchAction::LookUpFeed(feed_id) => r.phase == BatchPhase::FindingFeed && r.episode is Some
            && feed_id@ == r.episode->0.feed_id@,
        BatchAction::RunJobs => r.phase == BatchPhase::Running,
        BatchAction::Finish => r.phase == BatchPhase::Done,
    }
}

proof fn lemma_queued_books(before: BatchPlan, after: BatchPlan, feed: FeedSubscription)
    requires
        queued_recorded(before, after, feed),
    ensures
        count_sum(after.feed_summaries@, queued_count()) == count_sum(
            before.feed_summaries@,
            queued_count(),
        ) + 1,
        count_sum(after.feed_summaries@, downloaded_count()) == count_sum(
            before.feed_summaries@,
            downloaded_count(),
        ),
        count_sum(after.feed_summaries@, failed_count()) == count_sum(
            before.feed_summaries@,
            failed_count(),
        ),
{
    let s = before.feed_summaries@;
    let t = after.feed_summaries@;
    match summary_index(s, feed.id@) {
        Some(i) => {
            assert(t =~= s.update(i, t[i]));
            lemma_count_sum_update(s, i, t[i], queued_count());
            lemma_count_sum_update(s, i, t[i], downloaded_count());
            lemma_count_sum_update(s, i, t[i], failed_count());
        },
        None => {
            assert(t.drop_last() == s);
        },
    }
}

proof fn lemma_result_books(before: BatchPlan, after: BatchPlan, result: JobResult)
    requires
        batch_result_recorded(before, after, result),
    ensures
        count_sum(after.feed_summaries@, queued_count()) == count_sum(
            before.feed_summaries@,
            queued_count(),
        ),
        count_sum(after.feed_summaries@, downloaded_count()) <= count_sum(
            before.feed_summaries@,
            downloaded_count(),
        ) + if result is Ok {
            1int
        } else {
            0int
        },
        count_sum(after.feed_summaries@, failed_count()) <= count_sum(
            before.feed_summaries@,
            failed_count(),
        ) + if result is Ok {
            0int
        } else {
            1int
        },
{
    let s = before.feed_summaries@;
    let t = after.feed_summaries@;
    let feed_id = match result {
        Ok(f) => f@,
        Err((f, _)) => f@,
    };
    match summary_index(s, feed_id) {
        Some(i) => {
            lemma_count_sum_update(s, i, t[i], queued_count());
            lemma_count_sum_update(s, i, t[i], downloaded_count());
            lemma_count_sum_update(s, i, t[i], failed_count());
        },
        None => {},
    }
}

proof fn lemma_summary_within(plan: BatchPlan, k: int)
    requires
        0 <= k < plan.feed_summaries@.len(),
    ensures
        plan.feed_summaries@[k].queued <= count_sum(plan.feed_summaries@, queued_count()),
        plan.feed_summaries@[k].downloaded <= count_sum(
            plan.feed_summaries@,
            downloaded_count(),
        ),
        plan.feed_summaries@[k].failed <= count_sum(plan.feed_summaries@, failed_count()),
{
    let s = plan.feed_summaries@;
    assert forall|i: int| 0 <= i < s.len() implies queued_count()(#[trigger] s[i]) >= 0 by {}
    assert forall|i: int| 0 <= i < s.len() implies downloaded_count()(#[trigger] s[i]) >= 0 by {}
    assert forall|i: int| 0 <= i < s.len() implies failed_count()(#[trigger] s[i]) >= 0 by {}
    lemma_count_sum_bounds(s, k, queued_count());
    lemma_count_sum_bounds(s, k, downloaded_count());
    lemma_count_sum_bounds(s, k, failed_count());
}

proof fn lemma_sums_not_negative(plan: BatchPlan)
    ensures
        count_sum(plan.feed_summaries@, downloaded_count()) >= 0,
        count_sum(plan.feed_summaries@, failed_count()) >= 0,
{
    let s = plan.feed_summaries@;
    if s.len() > 0 {
        lemma_summary_within(plan, 0);
        assert(s[0].downloaded >= 0 && s[0].failed >= 0);
    }
}

impl BatchRun {
    /// Whether the batch waits for the work `event` is the outcome of. (Its books balance
    /// as long as only `begin_batch_run` and `batch_run_step` change it.)
    pub fn waits_for(&self, event: &BatchEvent) -> (r: bool)
        ensures
            r == batch_event_fits(*self, *event),
    {
        match event {
            BatchEvent::EpisodeFound(_) => self.phase == BatchPhase::FindingEpisode,
            BatchEvent::FeedFound(_) => self.phase == BatchPhase::FindingFeed,
            BatchEvent::JobsRan(results) => self.phase == BatchPhase::Running && results.len()
                == self.jobs.len(),
        }
    }
}

/// The text of a failure for an id asked for again.
pub open spec fn duplicate_error(id: Seq<char>) -> Seq<char> {
    "duplicate episode id requested: "@ + id
}

/// The text of a failure for an episode or feed the library does not hold.
pub open spec fn missing_error(id: Seq<char>) -> Seq<char> {
    "not found: "@ + id
}

/// The `count` errors from position `base` on report, in order, the ids from `first` on
/// as asked for again: each was already taken (it is in `seen`).
pub open spec fn duplicates_reported(
    errors: Seq<String>,
    base: int,
    ids: Seq<String>,
    first: int,
    count: int,
    seen: Seq<String>,
) -> bool {
    forall|j: int|
        0 <= j < count ==> has_text(seen, #[trigger] ids[first + j]@) && errors[base + j]@
            == duplicate_error(ids[first + j]@)
}

/// What taking ids does, from `before` to `after`: every id taken that was taken before
/// counts as a failure with its text, and the first new one is taken and its episode asked
/// for; with none left, the jobs are run.
pub open spec fn advanced(before: BatchRun, after: BatchRun, action: BatchAction) -> bool {
    let s0 = before.plan.summary;
    let s1 = after.plan.summary;
    let skipped = if action is LookUpEpisode {
        after.next - 1 - before.next
    } else {
        after.next - before.next
    };
    &&& after.ids == before.ids
    &&& after.jobs == before.jobs
    &&& after.episode == before.episode
    &&& before.next <= after.next <= after.ids@.len()
    &&& skipped >= 0
    &&& after.plan.feed_summaries@ == before.plan.feed_summaries@
    &&& s1.queued == s0.queued
    &&& s1.downloaded == s0.downloaded
    &&& s1.requested == s0.requested
    &&& s1.failed == s0.failed + skipped
    &&& s1.errors@.len() == s0.errors@.len() + skipped
    &&& s1.errors@.subrange(0, s0.errors@.len() as int) == s0.errors@
    &&& duplicates_reported(
        s1.errors@,
        s0.errors@.len() as int,
        after.ids@,
        before.next as int,
        skipped,
        before.plan.seen@,
    )
    &&& match action {
        BatchAction::LookUpEpisode(_) => {
            &&& !has_text(before.plan.seen@, after.ids@[after.next - 1]@)
            &&& after.plan.seen@.drop_last() == before.plan.seen@
            &&& after.plan.seen@.last()@ == after.ids@[after.next - 1]@
        },
        _ => after.next == after.ids@.len() && after.plan.seen@ == before.plan.seen@,
    }
}

/// Takes ids until one is new and looks up its episode; when none is left, runs the
/// queued jobs. An id asked for again counts as a failure.
fn advance(run: &mut BatchRun) -> (r: BatchAction)
    requires
        planned(*old(run)),
    ensures
        batch_run_wf(*final(run)),
        batch_action_fits(*final(run), r),
        advanced(*old(run), *final(run), r),
        r is LookUpEpisode || r is RunJobs,
{
    let n = run.ids.len();
    let ghost start = *old(run);
    loop
        invariant
            planned(*run),
            start == *old(run),
            n == run.ids@.len(),
            run.ids == start.ids,
            run.jobs == start.jobs,
            run.episode == start.episode,
            start.next <= run.next,
            run.plan.summary.queued == start.plan.summary.queued,
            run.plan.summary.downloaded == start.plan.summary.downloaded,
            run.plan.summary.requested == start.plan.summary.requested,
            run.plan.feed_summaries@ == start.plan.feed_summaries@,
            run.plan.seen@ == start.plan.seen@,
            run.plan.summary.failed == start.plan.summary.failed + (run.next - start.next),
            run.plan.summary.errors@.len() == start.plan.summary.errors@.len() + (run.next
                - start.next),
            run.plan.summary.errors@.subrange(0, start.plan.summary.errors@.len() as int)
                == start.plan.summary.errors@,
            duplicates_reported(
                run.plan.summary.errors@,
                start.plan.summary.errors@.len() as int,
                run.ids@,
                start.next as int,
                run.next - start.next,
                start.plan.seen@,
            ),
        decreases n - run.next,
    {
        if run.next >= n {
            run.phase = BatchPhase::Running;
            return BatchAction::RunJobs;
        }
        let id = run.ids[run.next].clone();
        let ghost before = run.plan;
        let ghost k = run.next - start.next;
        let admitted = admit_episode(&mut run.plan, id.as_str());
        run.next = run.next + 1;
        if admitted {
            run.phase = BatchPhase::FindingEpisode;
            return BatchAction::LookUpEpisode(id);
        }
        proof {
            let e0 = before.summary.errors@;
            let e1 = run.plan.summary.errors@;
            let base = start.plan.summary.errors@.len();
            assert(e1.drop_last() == e0);
            assert forall|j: int| 0 <= j < base implies e1[j] == e0[j] by {
                assert(e1.drop_last()[j] == e1[j]);
            }
            assert(e1.subrange(0, base as int) =~= start.plan.summary.errors@);
            assert forall|j: int| 0 <= j < run.next - start.next implies has_text(
                start.plan.seen@,
                #[trigger] run.ids@[start.next + j]@,
            ) && e1[base + j]@ == duplicate_error(run.ids@[start.next + j]@) by {
                if j < k {
                    assert(e1.drop_last()[base + j] == e1[base + j]);
                    assert(run.ids@[start.next + j] == run.ids@[start.next + j]);
                } else {
                    assert(e1[base + j] == e1.last());
                }
            }
        }
    }
}

/// Starts a manual download of `ids`: nothing counted yet, and the first lookup (or, with
/// no id, the empty run) asked for.
pub fn begin_batch_run(ids: Vec<String>) -> (r: (BatchRun, BatchAction))
    ensures
        batch_run_wf(r.0),
        batch_action_fits(r.0, r.1),
        r.0.ids == ids,
        r.0.plan.summary.requested == ids@.len(),
        r.0.jobs@.len() == 0,
{
    let plan = begin_batch(ids.len());
    let mut run = BatchRun {
        plan,
        ids,
        next: 0,
        phase: BatchPhase::Running,
        episode: None,
        jobs: Vec::new(),
    };
    let action = advance(&mut run);
    (run, action)
}

/// A missing episode or feed recorded in the batch: one failure more, with the text
/// "not found: {id}".
pub open spec fn missing_recorded(before: BatchRun, after: BatchRun, id: Seq<char>) -> bool {
    let s0 = before.plan.summary;
    let s1 = after.plan.summary;
    &&& after.ids == before.ids
    &&& after.jobs == before.jobs
    &&& after.next == before.next
    &&& after.plan.seen == before.plan.seen
    &&& after.plan.feed_summaries == before.plan.feed_summaries
    &&& s1.requested == s0.requested
    &&& s1.queued == s0.queued
    &&& s1.downloaded == s0.downloaded
    &&& s1.failed == s0.failed + 1
    &&& s1.errors@.len() == s0.errors@.len() + 1
    &&& s1.errors@.drop_last() == s0.errors@
    &&& s1.errors@.last()@ == missing_error(id)
}

/// The plans a batch passes through while its download results are counted one after
/// another, in order, each as `batch_result_recorded` says.
pub open spec fn recorded_in_order(plans: Seq<BatchPlan>, results: Seq<JobResult>) -> bool {
    &&& plans.len() == results.len() + 1
    &&& forall|i: int|
        0 <= i < results.len() ==> #[trigger] batch_result_recorded(plans[i], plans[i + 1], results[i])
}

/// `after` is `before` with the download results counted one after another, in order.
pub open spec fn results_recorded(before: BatchPlan, after: BatchPlan, results: Seq<JobResult>) -> bool {
    exists|plans: Seq<BatchPlan>|
        #[trigger] recorded_in_order(plans, results) && plans[0] == before && plans.last() == after
}

/// One step of a batch: what the outcome of its work makes of it.
pub open spec fn batch_transition(
    old: BatchRun,
    e: BatchEvent,
    new: BatchRun,
    action: BatchAction,
    emitted: Seq<DownloadProgress>,
) -> bool {
    match e {
        BatchEvent::EpisodeFound(None) => {
            &&& emitted.len() == 0
            &&& exists|mid: BatchRun|
                #[trigger] advanced(mid, new, action) && missing_recorded(
                    old,
                    mid,
                    old.ids@[old.next - 1]@,
                ) && mid.episode == old.episode
        },
        BatchEvent::EpisodeFound(Some(episode)) => {
            &&& new.plan == old.plan
            &&& new.ids == old.ids
            &&& new.jobs == old.jobs
            &&& new.next == old.next
            &&& new.episode == Some(episode)
            &&& action is LookUpFeed
            &&& emitted.len() == 0
        },
        BatchEvent::FeedFound(None) => {
            &&& emitted.len() == 0
            &&& exists|mid: BatchRun|
                #[trigger] advanced(mid, new, action) && missing_recorded(
                    old,
                    mid,
                    old.episode->0.feed_id@,
                ) && mid.episode is None
        },
        BatchEvent::FeedFound(Some(feed)) => {
            let job = job_for(feed, old.episode->0);
            &&& emitted == seq![queued_event(job)]
            &&& exists|mid: BatchRun|
                #[trigger] advanced(mid, new, action) && queued_recorded(old.plan, mid.plan, feed)
                    && mid.jobs@ == old.jobs@.push(job) && mid.ids == old.ids && mid.next
                    == old.next && mid.episode is None
        },
        BatchEvent::JobsRan(results) => {
            let s0 = old.plan.summary;
            let s1 = new.plan.summary;
            &&& results_recorded(old.plan, new.plan, results@)
            &&& s1.downloaded == s0.downloaded + results@.filter_map(result_ok_fn()).len()
            &&& s1.failed == s0.failed + results@.filter_map(result_error_fn()).len()
            &&& s1.errors@ == s0.errors@ + results@.filter_map(result_error_fn())
            &&& s1.queued == s0.queued
            &&& new.phase == BatchPhase::Done
            &&& new.ids == old.ids
            &&& new.jobs == old.jobs
            &&& action is Finish
            &&& emitted.len() == 0
        },
    }
}

/// Takes the outcome of the work a batch asked for: the batch's next state, the work to do
/// next and the events to report (see `batch_transition`). A missing episode or feed counts
/// as a failure with its text; a found one is queued and reported; the downloads' results
/// are counted in order, and then every id asked for is a download or a failure.
pub fn batch_run_step(run: &mut BatchRun, event: BatchEvent) -> (r: (BatchAction, Vec<DownloadProgress>))
    requires
        batch_run_wf(*old(run)),
        batch_event_fits(*old(run), event),
    ensures
        batch_run_wf(*final(run)),
        batch_action_fits(*final(run), r.0),
        final(run).ids == old(run).ids,
        batch_transition(*old(run), event, *final(run), r.0, r.1@),
{
    let n = run.ids.len();
    match event {
        BatchEvent::EpisodeFound(None) => {
            let i = run.next - 1;
            record_missing(&mut run.plan, run.ids[i].as_str());
            let ghost mid = *run;
            let action = advance(run);
            assert(advanced(mid, *run, action));
            (action, Vec::new())
        },
        BatchEvent::EpisodeFound(Some(episode)) => {
            let feed_id = episode.feed_id.clone();
            run.episode = Some(episode);
            run.phase = BatchPhase::FindingFeed;
            (BatchAction::LookUpFeed(feed_id), Vec::new())
        },
        BatchEvent::FeedFound(None) => {
            let missing = run.episode.as_ref().unwrap().feed_id.clone();
            record_missing(&mut run.plan, missing.as_str());
            run.episode = None;
            let ghost mid = *run;
            let action = advance(run);
            assert(advanced(mid, *run, action));
            (action, Vec::new())
        },
        BatchEvent::FeedFound(Some(feed)) => {
            let episode = run.episode.take().unwrap();
            proof {
                assert forall|k: int| 0 <= k < run.plan.feed_summaries@.len() implies (
                #[trigger] run.plan.feed_summaries@[k]).queued < usize::MAX by {
                    lemma_summary_within(run.plan, k);
                }
            }
            let ghost before = run.plan;
            record_queued(&mut run.plan, &feed);
            proof {
                lemma_queued_books(before, run.plan, feed);
            }
            let job = make_job(&feed, episode);
            let reported = DownloadProgress::DownloadQueued {
                feed_id: job.feed_id.clone(),
                episode_id: job.episode.id.clone(),
                episode_title: job.episode.normalized_title.clone(),
            };
            run.jobs.push(job);
            let ghost mid = *run;
            let action = advance(run);
            assert(advanced(mid, *run, action));
            let mut events: Vec<DownloadProgress> = Vec::new();
            events.push(reported);
            (action, events)
        },
        BatchEvent::JobsRan(results) => {
            let ghost all = results@;
            let ghost p0 = run.plan;
            let mut results = results;
            let total = results.len();
            let mut k: usize = 0;
            let ghost mut plans: Seq<BatchPlan> = seq![run.plan];
            proof {
                assert(all.take(0) =~= Seq::<JobResult>::empty());
            }
            while results.len() > 0
                invariant
                    books_balance(*run),
                    run.ids == old(run).ids,
                    run.jobs == old(run).jobs,
                    n == run.ids@.len(),
                    p0 == old(run).plan,
                    k <= all.len(),
                    all.len() == total,
                    results@ == all.skip(k as int),
                    run.plan.summary.downloaded + run.plan.summary.failed + results@.len()
                        == run.plan.summary.requested,
                    recorded_in_order(plans, all.take(k as int)),
                    plans[0] == p0,
                    plans.last() == run.plan,
                    run.plan.summary.downloaded == p0.summary.downloaded + all.take(
                        k as int,
                    ).filter_map(result_ok_fn()).len(),
                    run.plan.summary.failed == p0.summary.failed + all.take(k as int).filter_map(
                        result_error_fn(),
                    ).len(),
                    run.plan.summary.errors@ == p0.summary.errors@ + all.take(k as int).filter_map(
                        result_error_fn(),
                    ),
                    run.plan.summary.queued == p0.summary.queued,
                decreases results@.len(),
            {
                let result = results.remove(0);
                proof {
                    assert(result == all[k as int]);
                    lemma_sums_not_negative(run.plan);
                    assert forall|j: int| 0 <= j < run.plan.feed_summaries@.len() implies (
                    #[trigger] run.plan.feed_summaries@[j]).downloaded < usize::MAX
                        && run.plan.feed_summaries@[j].failed < usize::MAX by {
                        lemma_summary_within(run.plan, j);
                    }
                    all.lemma_filter_map_take_succ(result_ok_fn(), k as int);
                    all.lemma_filter_map_take_succ(result_error_fn(), k as int);
                }
                let ghost before = run.plan;
                let ghost res = result;
                record_batch_result(&mut run.plan, result);
                proof {
                    lemma_result_books(before, run.plan, res);
                    let next = all.take(k + 1);
                    assert(next.drop_last() =~= all.take(k as int));
                    assert(next.last() == res);
                    let grown = plans.push(run.plan);
                    assert forall|i: int| 0 <= i < next.len() implies #[trigger] batch_result_recorded(
                        grown[i],
                        grown[i + 1],
                        next[i],
                    ) by {
                        if i < k {
                            assert(grown[i] == plans[i] && grown[i + 1] == plans[i + 1]);
                            assert(next[i] == all.take(k as int)[i]);
                        } else {
                            assert(grown[i] == before && grown[i + 1] == run.plan);
                        }
                    }
                    plans = grown;
                    match res {
                        Ok(_) => {
                            assert(result_ok_fn()(all[k as int]) is Some);
                            assert(result_error_fn()(all[k as int]) is None);
                        },
                        Err((_, e)) => {
                            assert(result_ok_fn()(all[k as int]) is None);
                            assert(result_error_fn()(all[k as int]) == Some(e));
                            assert(run.plan.summary.errors@ =~= p0.summary.errors@ + (all.take(
                                k as int,
                            ).filter_map(result_error_fn()) + seq![e]));
                        },
                    }
                    assert(results@ =~= all.skip(k + 1));
                }
                k = k + 1;
            }
            proof {
                assert(all.skip(k as int).len() == 0);
                assert(all.take(k as int) =~= all);
                assert(recorded_in_order(plans, all));
            }
            run.phase = BatchPhase::Done;
            (BatchAction::Finish, Vec::new())
        },
    }
}

/// A finished batch accounts for every id asked for: each is a download or a failure, each
/// failure has its text, and the queued count is the sum over the feed summaries.
pub proof fn lemma_finished_batch_accounts(run: BatchRun)
    requires
        batch_run_wf(run),
        run.phase == BatchPhase::Done,
    ensures
        run.plan.summary.downloaded + run.plan.summary.failed == run.ids@.len(),
        run.plan.summary.requested == run.ids@.len(),
        run.plan.summary.errors@.len() == run.plan.summary.failed,
        run.plan.summary.queued == count_sum(run.plan.feed_summaries@, queued_count()),
{
}

} // verus!
